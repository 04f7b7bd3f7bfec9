use hexscatter::math::{wrapping_abs, Axial, Cuboid, Diagonal, Direction, Point};

fn cell(q: i32, r: i32) -> Axial {
    Axial { q, r }
}

#[test]
fn distance_is_symmetric_and_zero_on_itself() {
    let cells = [cell(0, 0), cell(3, -1), cell(-4, 7), cell(12, 12), cell(-38, 38), cell(5, -9)];
    for a in cells {
        assert_eq!(a.distance(&a), 0);
        for b in cells {
            assert_eq!(a.distance(&b), b.distance(&a));
            if a != b {
                assert!(a.distance(&b) > 0);
            }
        }
    }
}

#[test]
fn distance_exact_values() {
    assert_eq!(cell(0, 0).distance(&cell(3, -1)), 3);
    assert_eq!(cell(0, 0).distance(&cell(2, 2)), 4);
    assert_eq!(cell(-4, 7).distance(&cell(3, -1)), 8);
    assert_eq!(cell(1, 0).distance(&cell(0, 1)), 1);
    assert_eq!(cell(-38, 0).distance(&cell(38, 0)), 76);
}

#[test]
fn distance_wraps_on_the_far_ends() {
    let a = cell(i32::MIN, 0);
    let b = cell(i32::MAX, 0);
    assert_eq!(a.distance(&b), b.distance(&a));
    assert_eq!(a.distance(&b), 1);
    assert_eq!(cell(i32::MIN, i32::MIN).distance(&cell(0, 0)), 0);
}

#[test]
fn delta_sums_to_zero() {
    let c = cell(5, -2).delta(&cell(1, 4));
    assert_eq!(c, Cuboid { q: 4, r: -6, s: 2 });
    assert_eq!(c.q + c.r + c.s, 0);
    assert_eq!(c.length(), 6);
    assert_eq!(c.length(), cell(5, -2).distance(&cell(1, 4)));
}

#[test]
fn direction_deltas() {
    assert_eq!(Direction::QNeg.delta(), Cuboid { q: -1, r: 0, s: 1 });
    assert_eq!(Direction::QPos.delta(), Cuboid { q: 1, r: 0, s: -1 });
    assert_eq!(Direction::RNeg.delta(), Cuboid { q: 1, r: -1, s: 0 });
    assert_eq!(Direction::RPos.delta(), Cuboid { q: -1, r: 1, s: 0 });
    assert_eq!(Direction::SNeg.delta(), Cuboid { q: 0, r: 1, s: -1 });
    assert_eq!(Direction::SPos.delta(), Cuboid { q: 0, r: -1, s: 1 });
    assert_eq!(Direction::Zero.delta(), Cuboid { q: 0, r: 0, s: 0 });
}

#[test]
fn diagonal_deltas() {
    assert_eq!(Diagonal::QNeg.delta(), Cuboid { q: -2, r: 1, s: 1 });
    assert_eq!(Diagonal::QPos.delta(), Cuboid { q: 2, r: -1, s: -1 });
    assert_eq!(Diagonal::RNeg.delta(), Cuboid { q: 1, r: -2, s: 1 });
    assert_eq!(Diagonal::RPos.delta(), Cuboid { q: -1, r: 2, s: -1 });
    assert_eq!(Diagonal::SNeg.delta(), Cuboid { q: 1, r: 1, s: -2 });
    assert_eq!(Diagonal::SPos.delta(), Cuboid { q: -1, r: -1, s: 2 });
    assert_eq!(Diagonal::Zero.delta(), Cuboid { q: 0, r: 0, s: 0 });
    assert_eq!(Diagonal::SPos.delta().length(), 2);
}

#[test]
fn neighbor_is_one_step_away() {
    let a = cell(4, -7);
    let steps = [
        Direction::QNeg,
        Direction::QPos,
        Direction::RNeg,
        Direction::RPos,
        Direction::SNeg,
        Direction::SPos,
    ];
    for d in steps {
        assert_eq!(a.distance(&a.neighbor(d)), 1);
    }
    assert_eq!(a.neighbor(Direction::Zero), a);
    assert_eq!(a.neighbor(Direction::RNeg), cell(5, -8));
    assert_eq!(cell(i32::MAX, 0).neighbor(Direction::QPos), cell(i32::MIN, 0));
}

#[test]
fn cuboid_abs_and_length() {
    let c = Cuboid { q: -3, r: 5, s: -2 };
    assert_eq!(c.abs(), Cuboid { q: 3, r: 5, s: 2 });
    assert_eq!(c.length(), 5);
    assert_eq!(Cuboid { q: 0, r: 0, s: 0 }.length(), 0);
    assert_eq!(Cuboid { q: i32::MIN, r: 0, s: 0 }.abs().q, i32::MIN);
    assert_eq!(wrapping_abs(i32::MIN), i32::MIN);
    assert_eq!(wrapping_abs(-7), 7);
}

#[test]
fn cuboid_direction_breaks_ties_by_q_then_r() {
    assert_eq!(Cuboid { q: 3, r: -3, s: 0 }.direction(), Direction::QPos);
    assert_eq!(Cuboid { q: -3, r: 3, s: 0 }.direction(), Direction::QNeg);
    assert_eq!(Cuboid { q: 0, r: 2, s: -2 }.direction(), Direction::RPos);
    assert_eq!(Cuboid { q: 0, r: -2, s: 2 }.direction(), Direction::RNeg);
    assert_eq!(Cuboid { q: 1, r: 1, s: -2 }.direction(), Direction::SNeg);
    assert_eq!(Cuboid { q: -1, r: -1, s: 2 }.direction(), Direction::SPos);
    assert_eq!(Cuboid { q: 0, r: 0, s: 0 }.direction(), Direction::QPos);
}

#[test]
fn point_default_is_the_corner() {
    assert_eq!(Point::default(), Point { x: 0, y: 0 });
}
