use sector::clip::{clip_wall, Boundary, FAR, NEAR, X_FAR, X_NEAR};
use sector::math::{Vec2, ONE};
use sector::model::Position2;

fn p(x: f64, y: f64) -> Position2 {
    Position2(Vec2::new((x * ONE as f64).round() as i32, (y * ONE as f64).round() as i32))
}

#[test]
fn near_and_far_planes() {
    assert_eq!(NEAR, 6554);
    assert_eq!(FAR, 50 * ONE);
    assert_eq!(X_NEAR, NEAR);
    assert_eq!(X_FAR, FAR);
}

#[test]
fn boundaries_run_along_the_diagonals_and_the_near_plane() {
    assert_eq!(Boundary::Left.first(), Vec2::new(-NEAR, NEAR));
    assert_eq!(Boundary::Left.second(), Vec2::new(-FAR, FAR));
    assert_eq!(Boundary::Right.first(), Vec2::new(FAR, FAR));
    assert_eq!(Boundary::Right.second(), Vec2::new(NEAR, NEAR));
    assert_eq!(Boundary::Back.first(), Vec2::new(NEAR, NEAR));
    assert_eq!(Boundary::Back.second(), Vec2::new(-NEAR, NEAR));
}

#[test]
fn wall_inside_the_frustum_is_unchanged() {
    let cases = [
        (p(-2.0, 4.0), p(2.0, 4.0)),
        (p(-1.0, 5.0), p(3.0, 20.0)),
        (p(0.0, 0.2), p(0.05, 0.3)),
        (p(-39.0, 40.0), p(39.0, 40.0)),
        (p(1.0, 3.0), p(1.0, 30.0)),
        (p(2.0, 4.0), p(-2.0, 4.0)),
    ];
    for &(left, right) in &cases {
        assert_eq!(clip_wall(left, right), Some((left, right)));
    }
}

#[test]
fn wall_one_step_inside_the_sides_is_unchanged() {
    let left = Position2(Vec2::new(-5 * ONE + 1, 5 * ONE));
    let right = Position2(Vec2::new(5 * ONE - 1, 5 * ONE));
    assert_eq!(clip_wall(left, right), Some((left, right)));
    let right = Position2(Vec2::new(0, 10 * ONE));
    assert_eq!(clip_wall(left, right), Some((left, right)));
}

#[test]
fn wall_behind_the_camera_is_rejected() {
    assert_eq!(clip_wall(p(-1.0, -1.0), p(1.0, -1.0)), None);
    assert_eq!(clip_wall(p(-100.0, 0.09), p(100.0, 0.09)), None);
    assert_eq!(clip_wall(p(0.0, 0.0), p(0.0, 0.0)), None);
    assert_eq!(
        clip_wall(Position2(Vec2::new(0, NEAR - 1)), Position2(Vec2::new(5, NEAR - 1))),
        None
    );
}

#[test]
fn wall_across_the_left_side_is_cut_there() {
    assert_eq!(clip_wall(p(-10.0, 5.0), p(0.0, 5.0)), Some((p(-5.0, 5.0), p(0.0, 5.0))));
}

#[test]
fn wall_across_the_right_side_is_cut_there() {
    assert_eq!(clip_wall(p(0.0, 5.0), p(10.0, 5.0)), Some((p(0.0, 5.0), p(5.0, 5.0))));
}

#[test]
fn wall_across_both_sides_is_cut_at_both() {
    assert_eq!(clip_wall(p(-10.0, 5.0), p(10.0, 5.0)), Some((p(-5.0, 5.0), p(5.0, 5.0))));
}

#[test]
fn wall_across_the_near_plane_is_cut_there() {
    let near = Position2(Vec2::new(0, NEAR));
    assert_eq!(clip_wall(p(0.0, -1.0), p(0.0, 1.0)), Some((near, p(0.0, 1.0))));
    assert_eq!(clip_wall(p(0.0, 1.0), p(0.0, -1.0)), Some((p(0.0, 1.0), near)));
}

#[test]
fn wall_slanting_across_the_left_side() {
    // from (-6, 2) to (2, 10) the wall meets x = -y at (-4, 4)
    assert_eq!(clip_wall(p(-6.0, 2.0), p(2.0, 10.0)), Some((p(-4.0, 4.0), p(2.0, 10.0))));
}

#[test]
fn wall_to_the_left_of_the_frustum_is_rejected() {
    assert_eq!(clip_wall(p(-10.0, 1.0), p(-8.0, 2.0)), None);
}

#[test]
fn wall_to_the_right_of_the_frustum_is_rejected() {
    assert_eq!(clip_wall(p(8.0, 2.0), p(10.0, 1.0)), None);
}

#[test]
fn wall_that_begins_on_a_side_collapses_to_its_beginning() {
    let left = p(-5.0, 5.0);
    assert_eq!(clip_wall(left, p(0.0, 10.0)), Some((left, left)));
}

#[test]
fn wall_that_ends_on_a_side_is_unchanged() {
    let left = p(0.0, 10.0);
    let right = p(5.0, 5.0);
    assert_eq!(clip_wall(left, right), Some((left, right)));
}

#[test]
fn wall_through_the_near_corner_is_rejected() {
    // the wall meets the left side one step short of the near plane's end,
    // so no cut at the side is found; the near plane cuts its beginning, the
    // end stays far to the left of the frustum, and the wall is rejected
    let left = Position2(Vec2::new(2944, 2419));
    let right = Position2(Vec2::new(-622408, 274658));
    assert_eq!(clip_wall(left, right), None);
    assert_eq!(clip_wall(right, left), None);
}

#[test]
fn wall_whose_end_stays_beside_the_frustum_is_rejected() {
    // mirrored: the end stays far to the right
    let left = Position2(Vec2::new(-2944, 2419));
    let right = Position2(Vec2::new(622408, 274658));
    assert_eq!(clip_wall(left, right), None);
}

#[test]
fn clipped_wall_lies_inside_the_frustum() {
    let coords = [-40.0, -3.0, -0.2, -0.1, 0.0, 0.05, 0.1, 0.3, 2.0, 7.0, 60.0];
    for &lx in &coords {
        for &ly in &coords {
            for &rx in &coords {
                for &ry in &coords {
                    if let Some((left, right)) = clip_wall(p(lx, ly), p(rx, ry)) {
                        assert!(left.0.y >= NEAR && right.0.y >= NEAR);
                        assert!(-left.0.y <= left.0.x && left.0.x <= left.0.y);
                        assert!(-right.0.y <= right.0.x && right.0.x <= right.0.y);
                    }
                }
            }
        }
    }
}

#[test]
fn clipped_wall_lies_inside_the_frustum_near_the_corners() {
    let steps = [-9000, -6556, -6555, -6554, -6553, -1, 0, 1, 2419, 2944, 6553, 6554, 6555, 9000];
    for &lx in &steps {
        for &ly in &steps {
            for &rx in &steps {
                for &ry in &steps {
                    let left = Position2(Vec2::new(lx, ly));
                    let right = Position2(Vec2::new(rx * 97, ry * 41));
                    if let Some((a, b)) = clip_wall(left, right) {
                        assert!(a.0.y >= NEAR && -a.0.y <= a.0.x && a.0.x <= a.0.y);
                        assert!(b.0.y >= NEAR && -b.0.y <= b.0.x && b.0.x <= b.0.y);
                    }
                }
            }
        }
    }
}
