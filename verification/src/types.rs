//! Map data, thinker and sound identifiers shared by the play modules.

use vstd::prelude::*;
use crate::fixed::Fixed;

verus! {

/// Sound effect identifiers, in the order of the engine's sound table.
#[allow(non_camel_case_types)]
#[derive(Clone, Copy, Debug, PartialEq, Eq, Structural)]
pub enum SfxEnum {
    sfx_None,
    sfx_pistol,
    sfx_shotgn,
    sfx_sgcock,
    sfx_dshtgn,
    sfx_dbopn,
    sfx_dbcls,
    sfx_dbload,
    sfx_plasma,
    sfx_bfg,
    sfx_sawup,
    sfx_sawidl,
    sfx_sawful,
    sfx_sawhit,
    sfx_rlaunc,
    sfx_rxplod,
    sfx_firsht,
    sfx_firxpl,
    sfx_pstart,
    sfx_pstop,
    sfx_doropn,
    sfx_dorcls,
    sfx_stnmov,
    sfx_swtchn,
    sfx_swtchx,
    sfx_plpain,
    sfx_dmpain,
    sfx_popain,
    sfx_vipain,
    sfx_mnpain,
    sfx_pepain,
    sfx_slop,
    sfx_itemup,
    sfx_wpnup,
    sfx_oof,
    sfx_telept,
    sfx_posit1,
    sfx_posit2,
    sfx_posit3,
    sfx_bgsit1,
    sfx_bgsit2,
    sfx_sgtsit,
    sfx_cacsit,
    sfx_brssit,
    sfx_cybsit,
    sfx_spisit,
    sfx_bspsit,
    sfx_kntsit,
    sfx_vilsit,
    sfx_mansit,
    sfx_pesit,
    sfx_sklatk,
    sfx_sgtatk,
    sfx_skepch,
    sfx_vilatk,
    sfx_claw,
    sfx_skeswg,
    sfx_pldeth,
    sfx_pdiehi,
    sfx_podth1,
    sfx_podth2,
    sfx_podth3,
    sfx_bgdth1,
    sfx_bgdth2,
    sfx_sgtdth,
    sfx_cacdth,
    sfx_skldth,
    sfx_brsdth,
    sfx_cybdth,
    sfx_spidth,
    sfx_bspdth,
    sfx_vildth,
    sfx_kntdth,
    sfx_pedth,
    sfx_skedth,
    sfx_posact,
    sfx_bgact,
    sfx_dmact,
    sfx_bspact,
    sfx_bspwlk,
    sfx_vilact,
    sfx_noway,
    sfx_barexp,
    sfx_punch,
    sfx_hoof,
    sfx_metal,
    sfx_chgun,
    sfx_tink,
    sfx_bdopn,
    sfx_bdcls,
    sfx_itmbk,
    sfx_flame,
    sfx_flamst,
    sfx_getpow,
    sfx_bospit,
    sfx_boscub,
    sfx_bossit,
    sfx_bospn,
    sfx_bosdth,
    sfx_manatk,
    sfx_mandth,
    sfx_sssit,
    sfx_ssdth,
    sfx_keenpn,
    sfx_keendt,
    sfx_skeact,
    sfx_skesit,
    sfx_skeatk,
    sfx_radio,
}

/// The per-tic function a thinker runs.
#[derive(Clone, Copy, Debug, PartialEq, Eq, Structural)]
pub enum ActionFn {
    /// No function: the thinker is paused.
    NoAction,
    /// The thinker is to be unlinked by the next thinker-list sweep.
    PendingRemoval,
    MoveCeiling,
    VerticalDoor,
    MoveFloor,
    PlatRaise,
    FireFlicker,
    LightFlash,
    StrobeFlash,
    Glow,
    MobjThinker,
}

/// The thinker header embedded in every mover.
#[derive(Clone, Copy, Debug, PartialEq, Eq, Structural)]
pub struct Thinker {
    pub function: ActionFn,
}

impl Thinker {
    /// A thinker running `function`.
    pub fn new(function: ActionFn) -> (r: Thinker)
        ensures
            r.function == function,
    {
        Thinker { function }
    }
}

/// Linedef flag bits.
pub struct LineFlags(pub i16);

/// Solid, blocks everything.
pub const ML_BLOCKING: i16 = 1;
/// Blocks monsters only.
pub const ML_BLOCKMONSTERS: i16 = 2;
/// Backside will not be present at all if not two sided.
pub const ML_TWOSIDED: i16 = 4;
/// Upper texture unpegged.
pub const ML_DONTPEGTOP: i16 = 8;
/// Lower texture unpegged.
pub const ML_DONTPEGBOTTOM: i16 = 16;
/// Shown as one-sided on the automap.
pub const ML_SECRET: i16 = 32;
/// Blocks sound propagation.
pub const ML_SOUNDBLOCK: i16 = 64;
/// Never drawn on the automap.
pub const ML_DONTDRAW: i16 = 128;
/// Already drawn on the automap.
pub const ML_MAPPED: i16 = 256;

impl LineFlags {
    /// The flag bits.
    pub fn bits(&self) -> (r: i16)
        ensures
            r == self.0,
    {
        self.0
    }
}

/// A map vertex.
#[derive(Clone, Copy, Debug, PartialEq, Eq, Structural, Default)]
pub struct Vertex {
    pub x: Fixed,
    pub y: Fixed,
}

/// Slope class of a linedef, used to speed up box/line tests.
#[derive(Clone, Copy, Debug, PartialEq, Eq, Structural, Default)]
pub enum SlopeType {
    #[default]
    Horizontal,
    Vertical,
    Positive,
    Negative,
}

/// Bounding-box slot indices.
pub const BOXTOP: usize = 0;
pub const BOXBOTTOM: usize = 1;
pub const BOXLEFT: usize = 2;
pub const BOXRIGHT: usize = 3;

/// A linedef, with its sectors resolved to indices.
#[derive(Clone, Copy, Debug, Default)]
pub struct LineDef {
    pub v1: usize,
    pub v2: usize,
    pub dx: Fixed,
    pub dy: Fixed,
    pub flags: i16,
    pub special: i16,
    pub tag: i16,
    /// Front and back sidedef numbers; `-1` when there is no back side.
    pub sidenum: [i16; 2],
    pub bbox: [Fixed; 4],
    pub slopetype: SlopeType,
    pub frontsector: Option<usize>,
    pub backsector: Option<usize>,
    pub validcount: i32,
}

/// A sidedef.
#[derive(Clone, Copy, Debug, Default)]
pub struct SideDef {
    pub textureoffset: Fixed,
    pub rowoffset: Fixed,
    pub toptexture: i16,
    pub bottomtexture: i16,
    pub midtexture: i16,
    pub sector: usize,
}

/// The sound origin of a sector.
#[derive(Clone, Copy, Debug, Default)]
pub struct DegenMobj {
    pub x: Fixed,
    pub y: Fixed,
    pub z: Fixed,
}

/// A sector: floor and ceiling planes, light, tag and the mover occupying it.
#[derive(Clone, Debug, Default)]
pub struct Sector {
    pub floorheight: Fixed,
    pub ceilingheight: Fixed,
    pub floorpic: i16,
    pub ceilingpic: i16,
    pub lightlevel: i16,
    pub special: i16,
    pub tag: i16,
    /// 0 = untraversed, 1,2 = sndlines - 1.
    pub soundtraversed: i32,
    /// Thing that made a sound (or null).
    pub soundtarget: Option<usize>,
    pub blockbox: [i32; 4],
    pub soundorg: DegenMobj,
    pub validcount: i32,
    /// Head of the list of things in the sector.
    pub thinglist: Option<usize>,
    /// The mover (door, floor, ceiling, platform) occupying the sector.
    pub specialdata: Option<usize>,
    pub linecount: i32,
    /// Indices of the linedefs bounding the sector.
    pub lines: Vec<usize>,
}

/// A subsector: a convex piece of a sector.
#[derive(Clone, Copy, Debug, Default)]
pub struct Subsector {
    pub sector: usize,
    pub numlines: i16,
    pub firstline: i16,
}

/// A binary angle: the full circle is 2^32.
#[derive(Clone, Copy, Debug, PartialEq, Eq, Structural, Default)]
pub struct Angle(pub u32);

/// Map-object flag bits.
pub const MF_SPECIAL: u32 = 0x1;
pub const MF_SOLID: u32 = 0x2;
pub const MF_SHOOTABLE: u32 = 0x4;
pub const MF_NOSECTOR: u32 = 0x8;
pub const MF_NOBLOCKMAP: u32 = 0x10;
pub const MF_AMBUSH: u32 = 0x20;
pub const MF_JUSTHIT: u32 = 0x40;
pub const MF_JUSTATTACKED: u32 = 0x80;
pub const MF_SPAWNCEILING: u32 = 0x100;
pub const MF_NOGRAVITY: u32 = 0x200;
pub const MF_DROPOFF: u32 = 0x400;
pub const MF_PICKUP: u32 = 0x800;
pub const MF_NOCLIP: u32 = 0x1000;
pub const MF_SLIDE: u32 = 0x2000;
pub const MF_FLOAT: u32 = 0x4000;
pub const MF_TELEPORT: u32 = 0x8000;
pub const MF_MISSILE: u32 = 0x10000;
pub const MF_DROPPED: u32 = 0x20000;
pub const MF_SHADOW: u32 = 0x40000;
pub const MF_NOBLOOD: u32 = 0x80000;
pub const MF_CORPSE: u32 = 0x100000;
pub const MF_INFLOAT: u32 = 0x200000;
pub const MF_COUNTKILL: u32 = 0x400000;
pub const MF_COUNTITEM: u32 = 0x800000;
pub const MF_SKULLFLY: u32 = 0x1000000;
pub const MF_NOTDMATCH: u32 = 0x2000000;

/// A map object (thing), with its links resolved to indices.
#[derive(Clone, Copy, Debug, Default, PartialEq, Eq, Structural)]
pub struct MapObject {
    pub x: Fixed,
    pub y: Fixed,
    pub z: Fixed,
    /// Next and previous thing in the sector's thing list.
    pub snext: Option<usize>,
    pub sprev: Option<usize>,
    pub angle: Angle,
    pub sprite: i32,
    pub frame: i32,
    /// Next and previous thing in the blockmap cell's list.
    pub bnext: Option<usize>,
    pub bprev: Option<usize>,
    pub subsector: Option<usize>,
    pub floorz: Fixed,
    pub ceilingz: Fixed,
    pub radius: Fixed,
    pub height: Fixed,
    pub momx: Fixed,
    pub momy: Fixed,
    pub momz: Fixed,
    pub validcount: i32,
    /// Index of the thing's type in the thing-info table.
    pub type_: usize,
    pub tics: i32,
    /// Index of the current state in the state table.
    pub state: Option<usize>,
    pub flags: u32,
    pub health: i32,
    /// Movement direction (0..7, 8 = none).
    pub movedir: i32,
    /// When 0, select a new direction.
    pub movecount: i32,
    pub target: Option<usize>,
    /// Tics before the thing may attack.
    pub reactiontime: i32,
    /// Tics a monster keeps chasing its target before switching.
    pub threshold: i32,
    /// Index of the player controlling the thing.
    pub player: Option<usize>,
    pub lastlook: i32,
    pub tracer: Option<usize>,
}

/// Key card and skull indices into a player's `cards`.
pub const IT_BLUECARD: usize = 0;
pub const IT_YELLOWCARD: usize = 1;
pub const IT_REDCARD: usize = 2;
pub const IT_BLUESKULL: usize = 3;
pub const IT_YELLOWSKULL: usize = 4;
pub const IT_REDSKULL: usize = 5;

} // verus!
