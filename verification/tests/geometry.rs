use solarxy_cli::geometry::Axis;

#[test]
fn the_axis_cycles_through_all_three_and_returns() {
    let mut axis = Axis::Front;
    let mut names = Vec::new();
    for _ in 0..3 {
        names.push(axis.name());
        axis = axis.next();
    }
    assert_eq!(names, vec!["front", "side", "top"]);
    assert_eq!(axis, Axis::Front);
    assert_eq!(Axis::default(), Axis::Front);
}

#[test]
fn every_view_maps_three_distinct_axes() {
    for axis in [Axis::Front, Axis::Side, Axis::Top] {
        let (right, down, away, _) = axis.axes();
        let mut used = [right, down, away];
        used.sort_unstable();
        assert_eq!(used, [0, 1, 2], "{} reuses an axis", axis.name());
    }
}

#[test]
fn only_the_views_that_show_height_invert_the_screen_axis() {
    assert!(Axis::Front.axes().3);
    assert!(Axis::Side.axes().3);
    assert!(!Axis::Top.axes().3);
}
