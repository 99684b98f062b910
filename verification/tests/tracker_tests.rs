use cosmic_eyes::fixed::{effective_scale, logical, Fixed, Point};
use cosmic_eyes::global_cursor::{Sample, Update};
use cosmic_eyes::offset::{Offset, OFFSET_LIMIT};
use cosmic_eyes::tracker::{
    age, resolve, Effect, Message, TimedSample, Tracker, MAX_SKEW_NANOS,
};

const MS: u64 = 1_000_000;

fn fx(raw: i64) -> Fixed {
    Fixed::from_units(raw)
}

fn pt(x: i64, y: i64) -> Point {
    Point { x: fx(x), y: fx(y) }
}

fn offset(dx: i64, dy: i64) -> Offset {
    Offset::new(fx(dx), fx(dy)).unwrap()
}

fn components(o: Option<Offset>) -> Option<(i64, i64)> {
    o.map(|o| (o.x().raw, o.y().raw))
}

fn global(x: i32, y: i32, at: u64) -> Message {
    Message::GlobalCursor { update: Update::Position(Sample { x, y }), now: at }
}

#[test]
fn a_new_tracker_knows_nothing() {
    let t = Tracker::new();
    assert_eq!(t.hover_cursor, None);
    assert_eq!(t.global_cursor, None);
    assert_eq!(t.global_to_local_offset, None);
    assert!(!t.offset_dirty);
    assert_eq!(t.cursor(fx(1_000_000)), None);
}

#[test]
fn a_stale_global_sample_is_not_fused() {
    let mut t = Tracker::new();
    t.global_to_local_offset = Some(offset(1_000_000, 2_000_000));
    assert_eq!(t.update(global(100, 50, 100 * MS), fx(1_000_000)), Effect::Nothing);
    let e = t.update(Message::CursorMoved { position: pt(0, 0), now: 200 * MS }, fx(1_000_000));
    assert_eq!(e, Effect::Nothing);
    assert_eq!(components(t.global_to_local_offset), Some((1_000_000, 2_000_000)));
    assert!(!t.offset_dirty);
    assert_eq!(t.hover_cursor, Some(pt(0, 0)));
}

#[test]
fn the_skew_window_ends_after_eighty_milliseconds() {
    assert_eq!(MAX_SKEW_NANOS, 80 * MS);
    let mut t = Tracker::new();
    t.update(global(10, 10, 100 * MS), fx(1_000_000));
    t.maybe_calibrate(180 * MS + 1, pt(0, 0), fx(1_000_000));
    assert_eq!(t.global_to_local_offset, None);
    assert!(!t.offset_dirty);
    t.maybe_calibrate(180 * MS, pt(0, 0), fx(1_000_000));
    assert_eq!(components(t.global_to_local_offset), Some((10_000_000, 10_000_000)));
    assert!(t.offset_dirty);
}

#[test]
fn a_sample_from_the_future_counts_as_fresh() {
    assert_eq!(age(5, 9), 0);
    assert_eq!(age(9, 5), 4);
    let mut t = Tracker::new();
    t.update(global(10, 10, 500 * MS), fx(1_000_000));
    t.maybe_calibrate(100 * MS, pt(0, 0), fx(1_000_000));
    assert_eq!(components(t.global_to_local_offset), Some((10_000_000, 10_000_000)));
}

#[test]
fn a_move_can_calibrate_within_the_skew_window() {
    let mut t = Tracker::new();
    assert!(!t.can_calibrate(0));
    t.update(global(10, 10, 100 * MS), fx(1_000_000));
    assert!(t.can_calibrate(100 * MS));
    assert!(t.can_calibrate(180 * MS));
    assert!(!t.can_calibrate(180 * MS + 1));
    assert!(t.can_calibrate(0));
    t.update(Message::GlobalCursor { update: Update::Left, now: 101 * MS }, fx(1_000_000));
    assert!(!t.can_calibrate(101 * MS));
}

#[test]
fn without_a_global_sample_nothing_is_fused() {
    let mut t = Tracker::new();
    t.maybe_calibrate(100 * MS, pt(5_000_000, 5_000_000), fx(1_000_000));
    assert_eq!(t, Tracker::new());
}

#[test]
fn the_first_candidate_is_taken_as_it_is() {
    let mut t = Tracker::new();
    t.update(global(100, 50, 100 * MS), fx(2_000_000));
    t.update(
        Message::CursorMoved { position: pt(10_000_000, 5_000_000), now: 150 * MS },
        fx(2_000_000),
    );
    assert_eq!(components(t.global_to_local_offset), Some((40_000_000, 20_000_000)));
    assert!(t.offset_dirty);
}

#[test]
fn a_later_candidate_closes_a_quarter_of_the_gap() {
    let mut t = Tracker::new();
    t.global_to_local_offset = Some(offset(40_000_000, 20_000_000));
    t.update(global(100, 50, 100 * MS), fx(1_000_000));
    t.update(
        Message::CursorMoved { position: pt(10_000_000, 5_000_000), now: 100 * MS },
        fx(1_000_000),
    );
    assert_eq!(components(t.global_to_local_offset), Some((52_500_000, 26_250_000)));
}

#[test]
fn blend_rounds_toward_the_candidate() {
    assert_eq!(components(Some(offset(0, 0).blend(offset(1, -1)))), Some((1, -1)));
    assert_eq!(components(Some(offset(0, 0).blend(offset(2, -2)))), Some((1, -1)));
    assert_eq!(components(Some(offset(0, 0).blend(offset(3, -3)))), Some((1, -1)));
    assert_eq!(components(Some(offset(0, 0).blend(offset(4, -4)))), Some((1, -1)));
    assert_eq!(components(Some(offset(0, 0).blend(offset(5, -5)))), Some((2, -2)));
    assert_eq!(components(Some(offset(7, 7).blend(offset(7, 7)))), Some((7, 7)));
    assert_eq!(components(Some(offset(10, -10).blend(offset(0, 0)))), Some((7, -7)));
}

#[test]
fn blend_holds_at_the_limit() {
    let o = offset(-OFFSET_LIMIT, OFFSET_LIMIT).blend(offset(OFFSET_LIMIT, -OFFSET_LIMIT));
    assert_eq!(
        components(Some(o)),
        Some((-500_000_000_000_000_000, 500_000_000_000_000_000))
    );
}

#[test]
fn smoothing_converges_on_a_repeated_candidate() {
    let target = offset(10_000_000, 10_000_000);
    let mut o = offset(0, 0);
    for _ in 0..20 {
        o = o.blend(target);
    }
    assert!((10_000_000 - o.x().raw).abs() <= 100_000);
    assert!((10_000_000 - o.y().raw).abs() <= 100_000);
    assert_eq!(o.x().raw, 9_968_289);
    for _ in 0..200 {
        o = o.blend(target);
    }
    assert_eq!(components(Some(o)), Some((10_000_000, 10_000_000)));
}

#[test]
fn the_resolved_point_is_the_local_one_while_hovering() {
    let g = Some(TimedSample { value: Sample { x: 300, y: 200 }, at: 0 });
    let o = Some(offset(1_000_000, 1_000_000));
    let p = resolve(Some(pt(7_000_000, 8_000_000)), g, o, fx(1_000_000));
    assert_eq!(p, Some(pt(7_000_000, 8_000_000)));
    assert_eq!(resolve(Some(pt(1, 2)), None, None, fx(1_000_000)), Some(pt(1, 2)));
}

#[test]
fn the_resolved_point_is_the_global_one_minus_the_offset() {
    let g = Some(TimedSample { value: Sample { x: 300, y: 200 }, at: 0 });
    let o = Some(offset(4_000_000, -2_000_000));
    assert_eq!(resolve(None, g, o, fx(1_250_000)), Some(pt(236_000_000, 162_000_000)));
    assert_eq!(resolve(None, g, o, fx(1_000_000)), Some(pt(296_000_000, 202_000_000)));
}

#[test]
fn the_resolved_point_is_unknown_without_sample_or_offset() {
    let g = Some(TimedSample { value: Sample { x: 300, y: 200 }, at: 0 });
    let o = Some(offset(4_000_000, -2_000_000));
    assert_eq!(resolve(None, None, o, fx(1_000_000)), None);
    assert_eq!(resolve(None, g, None, fx(1_000_000)), None);
    assert_eq!(resolve(None, None, None, fx(1_000_000)), None);
}

#[test]
fn the_resolved_point_does_not_depend_on_the_age_of_the_sample() {
    let mut t = Tracker::new();
    t.global_to_local_offset = Some(offset(0, 0));
    t.update(global(10, 20, 1), fx(1_000_000));
    assert_eq!(
        t.update(Message::Tick, fx(1_000_000)),
        Effect::Cursor(Some(pt(10_000_000, 20_000_000)))
    );
}

#[test]
fn the_extremes_resolve_without_overflow() {
    let g = Some(TimedSample { value: Sample { x: i32::MIN, y: i32::MAX }, at: 0 });
    let o = Some(offset(OFFSET_LIMIT, -OFFSET_LIMIT));
    let p = resolve(None, g, o, fx(0)).unwrap();
    assert_eq!(p.x.raw, -21_474_836_480_000_000 - OFFSET_LIMIT);
    assert_eq!(p.y.raw, 21_474_836_470_000_000 + OFFSET_LIMIT);
}

#[test]
fn a_tick_changes_nothing() {
    let mut t = Tracker::new();
    t.update(global(10, 20, 1), fx(1_000_000));
    t.update(Message::CursorMoved { position: pt(1_000_000, 1_000_000), now: 2 }, fx(1_000_000));
    let before = t;
    assert_eq!(t.update(Message::Tick, fx(1_000_000)), Effect::Cursor(Some(pt(1_000_000, 1_000_000))));
    assert_eq!(t, before);
}

#[test]
fn leaving_saves_a_changed_offset_once() {
    let mut t = Tracker::new();
    t.update(global(100, 100, 10), fx(1_250_000));
    t.update(Message::CursorMoved { position: pt(0, 0), now: 20 }, fx(1_250_000));
    let e = t.update(Message::CursorLeft, fx(1_250_000));
    assert_eq!(e, Effect::Save { scale: fx(1_250_000), offset: offset(80_000_000, 80_000_000) });
    assert_eq!(t.hover_cursor, None);
    assert!(!t.offset_dirty);
    assert_eq!(t.update(Message::CursorLeft, fx(1_250_000)), Effect::Nothing);
}

#[test]
fn leaving_saves_at_the_scale_that_is_applied() {
    let mut t = Tracker::new();
    t.global_to_local_offset = Some(offset(1, 2));
    t.offset_dirty = true;
    let e = t.update(Message::CursorLeft, fx(0));
    assert_eq!(e, Effect::Save { scale: fx(100_000), offset: offset(1, 2) });
}

#[test]
fn leaving_without_an_offset_saves_nothing() {
    let mut t = Tracker::new();
    t.offset_dirty = true;
    assert_eq!(t.update(Message::CursorLeft, fx(1_000_000)), Effect::Nothing);
    assert!(!t.offset_dirty);
}

#[test]
fn a_left_update_clears_the_global_sample() {
    let mut t = Tracker::new();
    t.global_to_local_offset = Some(offset(0, 0));
    t.update(global(10, 20, 1), fx(1_000_000));
    assert_eq!(t.global_cursor, Some(TimedSample { value: Sample { x: 10, y: 20 }, at: 1 }));
    let e = t.update(Message::GlobalCursor { update: Update::Left, now: 2 }, fx(1_000_000));
    assert_eq!(e, Effect::Nothing);
    assert_eq!(t.global_cursor, None);
    assert_eq!(t.update(Message::Tick, fx(1_000_000)), Effect::Cursor(None));
}

#[test]
fn the_scale_is_never_below_a_tenth() {
    assert_eq!(effective_scale(fx(0)).raw, 100_000);
    assert_eq!(effective_scale(fx(-5_000_000)).raw, 100_000);
    assert_eq!(effective_scale(fx(99_999)).raw, 100_000);
    assert_eq!(effective_scale(fx(100_000)).raw, 100_000);
    assert_eq!(effective_scale(fx(1_250_000)).raw, 1_250_000);
    assert_eq!(logical(7, fx(0)).raw, 70_000_000);
}

#[test]
fn logical_coordinates_are_rounded_down() {
    assert_eq!(logical(100, fx(1_250_000)).raw, 80_000_000);
    assert_eq!(logical(1, fx(3_000_000)).raw, 333_333);
    assert_eq!(logical(-1, fx(3_000_000)).raw, -333_334);
    assert_eq!(logical(-3, fx(3_000_000)).raw, -1_000_000);
    assert_eq!(logical(0, fx(3_000_000)).raw, 0);
    assert_eq!(logical(i32::MAX, fx(100_000)).raw, 21_474_836_470_000_000);
    assert_eq!(logical(i32::MIN, fx(100_000)).raw, -21_474_836_480_000_000);
    assert_eq!(logical(1, fx(i64::MAX)).raw, 0);
    assert_eq!(logical(-1, fx(i64::MAX)).raw, -1);
}

#[test]
fn an_offset_lies_within_the_limit() {
    assert!(Offset::new(fx(OFFSET_LIMIT), fx(-OFFSET_LIMIT)).is_some());
    assert!(Offset::new(fx(OFFSET_LIMIT + 1), fx(0)).is_none());
    assert!(Offset::new(fx(0), fx(-OFFSET_LIMIT - 1)).is_none());
    assert!(Offset::new(fx(i64::MIN), fx(i64::MAX)).is_none());
}

#[test]
fn a_candidate_is_held_within_the_limit() {
    let o = Offset::between(pt(i64::MAX, i64::MIN), pt(i64::MIN, i64::MAX));
    assert_eq!(components(Some(o)), Some((OFFSET_LIMIT, -OFFSET_LIMIT)));
    let o = Offset::between(pt(5, 5), pt(7, 1));
    assert_eq!(components(Some(o)), Some((-2, 4)));
}

#[test]
fn a_tracker_starts_with_the_stored_offset() {
    let t = Tracker::init(fx(1_250_000), Some("1.25 4.0 -2.0"), None);
    assert_eq!(components(t.global_to_local_offset), Some((4_000_000, -2_000_000)));
    assert!(!t.offset_dirty);
    assert_eq!(t.hover_cursor, None);
    assert_eq!(t.global_cursor, None);
    let t = Tracker::init(fx(2_000_000), Some("1.25 4.0 -2.0"), None);
    assert_eq!(t.global_to_local_offset, None);
    let t = Tracker::init(fx(0), None, Some("0.1 1 1"));
    assert_eq!(components(t.global_to_local_offset), Some((1_000_000, 1_000_000)));
}
