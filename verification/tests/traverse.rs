use lib::fixed::{Fixed, FRACUNIT};
use lib::maputl::{p_path_traverse, InterceptData, MapUtilState, MAXINT, PT_ADDLINES, PT_EARLYOUT};
use lib::types::{LineDef, MapObject, SlopeType, Vertex};

const F: i32 = FRACUNIT;

/// One blockmap cell listing line 0, a north-south wall at x = 64.
fn wall() -> (Vec<i16>, Vec<i16>, Vec<LineDef>, Vec<Vertex>) {
    let verts = vec![Vertex { x: Fixed(64 * F), y: Fixed(-64 * F) }, Vertex { x: Fixed(64 * F), y: Fixed(64 * F) }];
    let line = LineDef { v1: 0, v2: 1, dx: Fixed(0), dy: Fixed(128 * F), slopetype: SlopeType::Vertical, ..LineDef::default() };
    (vec![0], vec![0, -1], vec![line], verts)
}

#[test]
fn trace_collects_and_hands_over_the_wall() {
    let (blockmap, lump, mut lines, verts) = wall();
    let mobjs: Vec<MapObject> = vec![];
    let links: Vec<Option<usize>> = vec![None];
    let mut state = MapUtilState::new();
    let mut validcount = 0;
    let r = p_path_traverse(
        &mut state,
        Fixed(8 * F),
        Fixed(8 * F),
        Fixed(100 * F),
        Fixed(8 * F),
        PT_ADDLINES,
        |_ic| true,
        &blockmap,
        &lump,
        &mut lines,
        &verts,
        &mobjs,
        &links,
        Fixed(0),
        Fixed(0),
        1,
        1,
        &mut validcount,
    );
    assert!(r);
    assert_eq!(validcount, 1);
    assert_eq!(lines[0].validcount, 1);
    assert_eq!(state.trace.x, Fixed(8 * F));
    assert_eq!(state.trace.dx, Fixed(92 * F));
    assert_eq!(state.intercept_p, 1);
    assert_eq!(state.intercepts[0].d, InterceptData::Line(0));
    // Handed over, it was marked.
    assert_eq!(state.intercepts[0].frac, Fixed(MAXINT));
}

#[test]
fn one_sided_wall_stops_an_early_out_trace() {
    let (blockmap, lump, mut lines, verts) = wall();
    let mobjs: Vec<MapObject> = vec![];
    let links: Vec<Option<usize>> = vec![None];
    let mut state = MapUtilState::new();
    let mut validcount = 5;
    let r = p_path_traverse(
        &mut state,
        Fixed(8 * F),
        Fixed(8 * F),
        Fixed(100 * F),
        Fixed(8 * F),
        PT_ADDLINES | PT_EARLYOUT,
        |_ic| true,
        &blockmap,
        &lump,
        &mut lines,
        &verts,
        &mobjs,
        &links,
        Fixed(0),
        Fixed(0),
        1,
        1,
        &mut validcount,
    );
    assert!(!r);
    assert!(state.earlyout);
    assert_eq!(validcount, 6);
}

#[test]
fn cell_boundary_start_is_nudged() {
    let (blockmap, lump, mut lines, verts) = wall();
    let mobjs: Vec<MapObject> = vec![];
    let links: Vec<Option<usize>> = vec![None];
    let mut state = MapUtilState::new();
    let mut validcount = 0;
    let r = p_path_traverse(
        &mut state,
        Fixed(0),
        Fixed(8 * F),
        Fixed(32 * F),
        Fixed(8 * F),
        0,
        |_ic| false,
        &blockmap,
        &lump,
        &mut lines,
        &verts,
        &mobjs,
        &links,
        Fixed(0),
        Fixed(0),
        1,
        1,
        &mut validcount,
    );
    assert!(r);
    assert_eq!(state.trace.x, Fixed(F));
    assert_eq!(state.intercept_p, 0);
}

#[test]
fn trace_from_cell_corner_over_empty_cell() {
    let blockmap: Vec<i16> = vec![0];
    let lump: Vec<i16> = vec![-1];
    let mut lines: Vec<LineDef> = vec![];
    let verts: Vec<Vertex> = vec![];
    let mobjs: Vec<MapObject> = vec![];
    let links: Vec<Option<usize>> = vec![None];
    let mut state = MapUtilState::new();
    let mut validcount = 0;
    let r = p_path_traverse(
        &mut state,
        Fixed(0),
        Fixed(0),
        Fixed(64 * 65536),
        Fixed(64 * 65536),
        PT_ADDLINES,
        |_ic| true,
        &blockmap,
        &lump,
        &mut lines,
        &verts,
        &mobjs,
        &links,
        Fixed(0),
        Fixed(0),
        1,
        1,
        &mut validcount,
    );
    assert!(r);
    assert_eq!(validcount, 1);
    assert_eq!(state.intercept_p, 0);
    assert!(!state.earlyout);
    assert_eq!(state.trace.x, Fixed(65536));
    assert_eq!(state.trace.y, Fixed(65536));
    assert_eq!(state.trace.dx, Fixed(63 * 65536));
    assert_eq!(state.trace.dy, Fixed(63 * 65536));
}
