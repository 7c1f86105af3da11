use invaders_core::formation::{roll_layout, FormationLayout, FormationMaker};
use invaders_core::geom::{Vec2, WinSize};

fn layout(sx: i64, sy: i64) -> FormationLayout {
    FormationLayout {
        start: Vec2 { x: sx, y: sy },
        offset: Vec2 { x: 30_000, y: 40_000 },
        radius: Vec2 { x: 100_000, y: 100_000 },
    }
}

#[test]
fn fresh_maker_issues_first_group() {
    let mut maker = FormationMaker::default();
    assert_eq!(maker.group_seq, 0);
    assert!(maker.current_formation.is_none());
    assert_eq!(maker.current_formation_members, 0);

    let f = maker.make(&layout(500_000, 0), 7);
    assert_eq!(f.group_id, 1);
    assert_eq!(f.angle, 7);
    assert_eq!(f.start, Vec2 { x: 500_000, y: 0 });
    assert_eq!(f.offset, Vec2 { x: 30_000, y: 40_000 });
    assert_eq!(f.radius, Vec2 { x: 100_000, y: 100_000 });
    assert_eq!(maker.group_seq, 1);
    assert_eq!(maker.current_formation_members, 1);
}

#[test]
fn members_share_group_until_cap_then_new_id() {
    let mut maker = FormationMaker::default();
    let a = layout(500_000, 0);
    let b = layout(-400_000, 10_000);

    let f1 = maker.make(&a, 0);
    let f2 = maker.make(&b, 999);
    // the second call returns the current formation unchanged: the new
    // layout and bearing are ignored while the formation has room
    assert_eq!(f1.group_id, f2.group_id);
    assert_eq!(f2.start, Vec2 { x: 500_000, y: 0 });
    assert_eq!(f2.angle, 0);
    assert_eq!(maker.current_formation_members, 2);

    // the cap (two members) is reached: a strictly greater id comes next
    let f3 = maker.make(&b, 999);
    assert!(f3.group_id > f1.group_id);
    assert_eq!(f3.group_id, 2);
    assert_eq!(f3.start, Vec2 { x: -400_000, y: 10_000 });
    assert_eq!(f3.angle, 999);
    assert_eq!(maker.current_formation_members, 1);

    let f4 = maker.make(&a, 0);
    assert_eq!(f4.group_id, 2);
    let f5 = maker.make(&a, 0);
    assert_eq!(f5.group_id, 3);
}

#[test]
fn needs_new_tracks_the_membership_cap() {
    let mut maker = FormationMaker::default();
    assert!(maker.needs_new());
    maker.make(&layout(500_000, 0), 0);
    assert!(!maker.needs_new());
    maker.make(&layout(500_000, 0), 0);
    assert!(maker.needs_new());
}

#[test]
fn rolled_layout_stays_in_documented_ranges() {
    let win = WinSize { w: 598_000, h: 676_000 };
    let h_span: i64 = win.h / 2 - 100_000;
    let w_spawn: i64 = win.w / 4;
    for _ in 0..50 {
        let l = roll_layout(&win);
        assert!(l.start.x == win.w || l.start.x == -win.w);
        assert!(-h_span <= l.start.y && l.start.y < h_span);
        assert!(-w_spawn <= l.offset.x && l.offset.x < w_spawn);
        assert!(0 <= l.offset.y && l.offset.y < h_span);
        assert!(80_000 <= l.radius.x && l.radius.x < 150_000);
        assert_eq!(l.radius.y, 100_000);
    }
}
