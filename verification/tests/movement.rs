use lib::fixed::{Fixed, FRACUNIT};
use lib::level::SlideLevel;
use lib::movement::{p_hit_slide_line, p_slide_move, SlideEvent, SlideHit, SLIDE_FUDGE};
use lib::types::{LineDef, MapObject, SlopeType, Vertex};

const F: i32 = FRACUNIT;

/// A player-sized thing at the origin moving `(mx, my)`; line 0 runs
/// east-west.
fn level(mx: i32, my: i32) -> SlideLevel {
    let thing = MapObject { radius: Fixed(16 * F), momx: Fixed(mx), momy: Fixed(my), ..MapObject::default() };
    let wall = LineDef { dx: Fixed(64 * F), slopetype: SlopeType::Horizontal, ..LineDef::default() };
    SlideLevel::new(vec![thing], vec![wall], vec![Vertex::default()])
}

fn no_hit() -> SlideHit {
    SlideHit { frac: Fixed(F + 1), line: None }
}

#[test]
fn nothing_in_the_way_stairsteps() {
    let mut lv = level(8 * F, 4 * F);
    p_slide_move(0, &mut lv);
    assert_eq!(lv.log.len(), 4);
    assert_eq!(
        lv.log[0],
        SlideEvent::Trace {
            x1: Fixed(16 * F),
            y1: Fixed(16 * F),
            x2: Fixed(24 * F),
            y2: Fixed(20 * F),
            best: no_hit(),
            found: no_hit(),
        }
    );
    assert_eq!(lv.log[3], SlideEvent::TryMove { mobj: 0, x: Fixed(0), y: Fixed(4 * F), moved: true });
}

#[test]
fn slides_along_an_east_west_wall() {
    let mut lv = level(8 * F, 4 * F);
    let hit = SlideHit { frac: Fixed(F / 2), line: Some(0) };
    lv.wall = hit;
    p_slide_move(0, &mut lv);
    let f = F / 2 - SLIDE_FUDGE;
    let up_x = ((8 * F as i64 * f as i64) >> 16) as i32;
    let up_y = ((4 * F as i64 * f as i64) >> 16) as i32;
    assert_eq!(lv.log[3], SlideEvent::TryMove { mobj: 0, x: Fixed(up_x), y: Fixed(up_y), moved: true });
    // Half the move is left; along an east-west wall only its east-west part.
    assert_eq!(lv.mobjs[0].momx, Fixed(4 * F));
    assert_eq!(lv.mobjs[0].momy, Fixed(0));
    assert_eq!(lv.log[4], SlideEvent::TryMove { mobj: 0, x: Fixed(up_x + 4 * F), y: Fixed(up_y), moved: true });
    assert_eq!(lv.log.len(), 5);
}

#[test]
fn fully_blocked_gives_up_after_stairsteps() {
    let mut lv = level(8 * F, 4 * F);
    lv.wall = SlideHit { frac: Fixed(F / 2), line: Some(0) };
    lv.blocked = true;
    p_slide_move(0, &mut lv);
    // Three traces, the move up to the wall, then the stair-step pair.
    assert_eq!(lv.log.len(), 6);
    assert_eq!(lv.log[4], SlideEvent::TryMove { mobj: 0, x: Fixed(0), y: Fixed(4 * F), moved: false });
    assert_eq!(lv.log[5], SlideEvent::TryMove { mobj: 0, x: Fixed(8 * F), y: Fixed(0), moved: false });
}

#[test]
fn axis_walls_keep_one_part_of_the_move() {
    let lv = level(0, 0);
    let horizontal = LineDef { slopetype: SlopeType::Horizontal, ..LineDef::default() };
    let vertical = LineDef { slopetype: SlopeType::Vertical, ..LineDef::default() };
    assert_eq!(p_hit_slide_line(&horizontal, Fixed(0), Fixed(0), 5, 7, &lv), (5, 0));
    assert_eq!(p_hit_slide_line(&vertical, Fixed(0), Fixed(0), 5, 7, &lv), (0, 7));
}
