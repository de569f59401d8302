use std::cell::RefCell;

use lib::fixed::{Fixed, FRACUNIT};
use lib::maputl::{
    p_aprox_distance, p_block_lines_iterator, p_block_things_iterator, p_box_on_line_side,
    p_intercept_vector, p_line_opening, p_make_divline, p_point_on_divline_side, p_point_on_line_side,
    p_set_thing_position, p_traverse_intercepts, p_unset_thing_position, pit_add_line_intercepts,
    pit_add_thing_intercepts, Divline, Intercept, InterceptData, MapUtilState, MAXINT,
};
use lib::types::{LineDef, MapObject, Sector, SlopeType, Subsector, Vertex, MF_NOBLOCKMAP};

const F: i32 = FRACUNIT;

fn line(v1: usize, v2: usize, dx: i32, dy: i32) -> LineDef {
    LineDef { v1, v2, dx: Fixed(dx), dy: Fixed(dy), ..LineDef::default() }
}

#[test]
fn aprox_distance_three_four() {
    // Seven eighths of 4 plus half of 3: exactly 5.
    assert_eq!(p_aprox_distance(Fixed(3 * F), Fixed(4 * F)), Fixed(5 * F));
    // Order and signs do not matter.
    assert_eq!(p_aprox_distance(Fixed(-4 * F), Fixed(3 * F)), Fixed(5 * F));
    assert_eq!(p_aprox_distance(Fixed(0), Fixed(0)), Fixed(0));
    // Along an axis: the offset itself.
    assert_eq!(p_aprox_distance(Fixed(7 * F), Fixed(0)), Fixed(7 * F));
}

#[test]
fn aprox_distance_within_four_percent() {
    // (2, 1): length about 2.236.
    let d = p_aprox_distance(Fixed(2 * F), Fixed(F)).0 as f64 / F as f64;
    assert!((d - 5f64.sqrt()).abs() <= 0.04 * 5f64.sqrt());
    let mut x = 0;
    while x <= 64 {
        let y = 64 - x;
        let d = p_aprox_distance(Fixed(x * F), Fixed(y * F)).0 as f64 / F as f64;
        let t = ((x * x + y * y) as f64).sqrt();
        assert!((d - t).abs() <= 0.04 * t + 1.0 / F as f64);
        x += 1;
    }
}

#[test]
fn point_on_vertical_line() {
    let verts = vec![Vertex { x: Fixed(0), y: Fixed(0) }];
    let l = line(0, 0, 0, 10 * F);
    assert_eq!(p_point_on_line_side(Fixed(-F), Fixed(0), &l, &verts), 1);
    assert_eq!(p_point_on_line_side(Fixed(F), Fixed(0), &l, &verts), 0);
}

#[test]
fn point_on_diagonal_line() {
    let verts = vec![Vertex { x: Fixed(0), y: Fixed(0) }];
    let l = line(0, 0, F, F);
    assert_eq!(p_point_on_line_side(Fixed(F), Fixed(0), &l, &verts), 0);
    assert_eq!(p_point_on_line_side(Fixed(0), Fixed(F), &l, &verts), 1);
}

#[test]
fn box_sides_of_horizontal_line() {
    let verts = vec![Vertex { x: Fixed(0), y: Fixed(0) }];
    let l = LineDef { slopetype: SlopeType::Horizontal, ..line(0, 0, 10 * F, 0) };
    let above = [Fixed(10 * F), Fixed(5 * F), Fixed(0), Fixed(F)];
    let across = [Fixed(5 * F), Fixed(-5 * F), Fixed(0), Fixed(F)];
    assert_eq!(p_box_on_line_side(&above, &l, &verts), 1);
    assert_eq!(p_box_on_line_side(&across, &l, &verts), -1);
    // The same line drawn the other way flips the side.
    let back = LineDef { slopetype: SlopeType::Horizontal, ..line(0, 0, -10 * F, 0) };
    assert_eq!(p_box_on_line_side(&above, &back, &verts), 0);
}

#[test]
fn point_on_divline() {
    let dl = Divline { x: Fixed(0), y: Fixed(0), dx: Fixed(F), dy: Fixed(F) };
    assert_eq!(p_point_on_divline_side(Fixed(F), Fixed(0), &dl), 0);
    assert_eq!(p_point_on_divline_side(Fixed(0), Fixed(F), &dl), 1);
}

#[test]
fn make_divline_copies_start_and_direction() {
    let verts = vec![Vertex { x: Fixed(7), y: Fixed(9) }];
    let l = line(0, 0, 3, -4);
    assert_eq!(p_make_divline(&l, &verts), Divline { x: Fixed(7), y: Fixed(9), dx: Fixed(3), dy: Fixed(-4) });
}

#[test]
fn intercept_half_way() {
    let trace = Divline { x: Fixed(0), y: Fixed(0), dx: Fixed(10 * F), dy: Fixed(0) };
    let wall = Divline { x: Fixed(5 * F), y: Fixed(-5 * F), dx: Fixed(0), dy: Fixed(10 * F) };
    assert_eq!(p_intercept_vector(&trace, &wall), Fixed(F / 2));
    // Parallel lines do not meet.
    let parallel = Divline { x: Fixed(0), y: Fixed(F), dx: Fixed(10 * F), dy: Fixed(0) };
    assert_eq!(p_intercept_vector(&trace, &parallel), Fixed(0));
}

#[test]
fn line_opening_between_two_sectors() {
    let sectors = vec![
        Sector { floorheight: Fixed(0), ceilingheight: Fixed(100 * F), ..Sector::default() },
        Sector { floorheight: Fixed(10 * F), ceilingheight: Fixed(80 * F), ..Sector::default() },
    ];
    let l = LineDef { sidenum: [0, 1], frontsector: Some(0), backsector: Some(1), ..LineDef::default() };
    let mut st = MapUtilState::new();
    p_line_opening(&mut st, &l, &sectors);
    assert_eq!(st.opentop, Fixed(80 * F));
    assert_eq!(st.openbottom, Fixed(10 * F));
    assert_eq!(st.lowfloor, Fixed(0));
    assert_eq!(st.openrange, Fixed(70 * F));
    // A one-sided line has no opening.
    let wall = LineDef { sidenum: [0, -1], ..LineDef::default() };
    p_line_opening(&mut st, &wall, &sectors);
    assert_eq!(st.openrange, Fixed(0));
    assert_eq!(st.opentop, Fixed(80 * F));
}

#[test]
fn unset_head_of_sector_list() {
    let mut mobjs = vec![
        MapObject { snext: Some(1), flags: MF_NOBLOCKMAP, subsector: Some(0), ..MapObject::default() },
        MapObject { sprev: Some(0), flags: MF_NOBLOCKMAP, subsector: Some(0), ..MapObject::default() },
    ];
    let mut sectors = vec![Sector { thinglist: Some(0), ..Sector::default() }];
    let subsectors = vec![Subsector { sector: 0, numlines: 0, firstline: 0 }];
    let mut links: Vec<Option<usize>> = vec![None];
    p_unset_thing_position(0, &mut mobjs, &mut sectors, &subsectors, &mut links, Fixed(0), Fixed(0), 1, 1);
    assert_eq!(sectors[0].thinglist, Some(1));
    assert_eq!(mobjs[1].sprev, None);
    assert_eq!(links, vec![None]);
}

#[test]
fn set_position_links_at_heads() {
    let mut mobjs = vec![MapObject::default(), MapObject::default()];
    let mut sectors = vec![Sector { thinglist: Some(1), ..Sector::default() }];
    let subsectors = vec![Subsector { sector: 0, numlines: 0, firstline: 0 }];
    let mut links: Vec<Option<usize>> = vec![Some(1)];
    p_set_thing_position(0, &mut mobjs, &mut sectors, &subsectors, &mut links, Fixed(0), Fixed(0), 1, 1, |_x, _y| 0);
    assert_eq!(mobjs[0].subsector, Some(0));
    assert_eq!(sectors[0].thinglist, Some(0));
    assert_eq!(mobjs[0].snext, Some(1));
    assert_eq!(mobjs[1].sprev, Some(0));
    assert_eq!(links[0], Some(0));
    assert_eq!(mobjs[0].bnext, Some(1));
    assert_eq!(mobjs[1].bprev, Some(0));
}

#[test]
fn block_lines_visited_once() {
    let blockmap: Vec<i16> = vec![0];
    let lump: Vec<i16> = vec![0, 1, 0, -1];
    let mut lines = vec![LineDef::default(), LineDef::default()];
    let mut seen = Vec::new();
    let mut f = |i: usize, _l: LineDef| {
        seen.push(i);
        true
    };
    assert!(p_block_lines_iterator(0, 0, &blockmap, &lump, &mut lines, 1, 1, 5, &mut f));
    assert_eq!(seen, vec![0, 1]);
    assert_eq!(lines[0].validcount, 5);
    assert_eq!(lines[1].validcount, 5);
    // Off the blockmap nothing is visited.
    let mut none = |_i: usize, _l: LineDef| false;
    assert!(p_block_lines_iterator(3, 0, &blockmap, &lump, &mut lines, 1, 1, 6, &mut none));
}

#[test]
fn block_things_follow_links() {
    let mobjs = vec![MapObject { bnext: Some(1), ..MapObject::default() }, MapObject::default()];
    let links = vec![Some(0)];
    let mut seen = Vec::new();
    let mut f = |i: usize, _m: &MapObject| {
        seen.push(i);
        true
    };
    assert!(p_block_things_iterator(0, 0, &links, &mobjs, 1, 1, &mut f));
    assert_eq!(seen, vec![0, 1]);
    let mut stop = |_i: usize, _m: &MapObject| false;
    assert!(!p_block_things_iterator(0, 0, &links, &mobjs, 1, 1, &mut stop));
}

#[test]
fn line_intercept_recorded() {
    let verts = vec![Vertex { x: Fixed(5 * F), y: Fixed(-5 * F) }, Vertex { x: Fixed(5 * F), y: Fixed(5 * F) }];
    let l = line(0, 1, 0, 10 * F);
    let mut st = MapUtilState::new();
    st.trace = Divline { x: Fixed(0), y: Fixed(0), dx: Fixed(32 * F), dy: Fixed(0) };
    assert!(pit_add_line_intercepts(&mut st, 7, &l, &verts));
    assert_eq!(st.intercept_p, 1);
    assert_eq!(st.intercepts[0], Intercept { frac: Fixed(10240), is_a_line: true, d: InterceptData::Line(7) });
}

#[test]
fn thing_behind_trace_not_recorded() {
    let mut st = MapUtilState::new();
    st.trace = Divline { x: Fixed(0), y: Fixed(0), dx: Fixed(32 * F), dy: Fixed(0) };
    let behind = MapObject { x: Fixed(-10 * F), y: Fixed(0), radius: Fixed(F), ..MapObject::default() };
    assert!(pit_add_thing_intercepts(&mut st, 2, &behind));
    assert_eq!(st.intercept_p, 0);
    let ahead = MapObject { x: Fixed(16 * F), y: Fixed(0), radius: Fixed(F), ..MapObject::default() };
    assert!(pit_add_thing_intercepts(&mut st, 3, &ahead));
    assert_eq!(st.intercept_p, 1);
    assert_eq!(st.intercepts[0].d, InterceptData::Thing(3));
    assert!(!st.intercepts[0].is_a_line);
}

#[test]
fn intercepts_visited_nearest_first() {
    let mut st = MapUtilState::new();
    for (i, f) in [F / 2, F / 4, 3 * F / 4].iter().enumerate() {
        st.intercepts[i] = Intercept { frac: Fixed(*f), is_a_line: true, d: InterceptData::Line(i) };
    }
    st.intercept_p = 3;
    let order = RefCell::new(Vec::new());
    let all = p_traverse_intercepts(&mut st, |ic: &Intercept| {
        order.borrow_mut().push(ic.frac.0);
        true
    }, Fixed(F));
    assert!(all);
    assert_eq!(*order.borrow(), vec![F / 4, F / 2, 3 * F / 4]);
    assert!(st.intercepts[..3].iter().all(|ic| ic.frac == Fixed(MAXINT)));
}

#[test]
fn intercepts_beyond_maxfrac_left_alone() {
    let mut st = MapUtilState::new();
    st.intercepts[0] = Intercept { frac: Fixed(F / 2), is_a_line: true, d: InterceptData::Line(0) };
    st.intercepts[1] = Intercept { frac: Fixed(F / 8), is_a_line: true, d: InterceptData::Line(1) };
    st.intercept_p = 2;
    let order = RefCell::new(Vec::new());
    assert!(p_traverse_intercepts(&mut st, |ic: &Intercept| {
        order.borrow_mut().push(ic.frac.0);
        true
    }, Fixed(F / 4)));
    assert_eq!(*order.borrow(), vec![F / 8]);
    assert_eq!(st.intercepts[0].frac, Fixed(F / 2));
    // A traverser that refuses stops the walk.
    let mut st2 = MapUtilState::new();
    st2.intercepts[0] = Intercept { frac: Fixed(0), is_a_line: false, d: InterceptData::Thing(4) };
    st2.intercept_p = 1;
    assert!(!p_traverse_intercepts(&mut st2, |_ic: &Intercept| false, Fixed(F)));
}
