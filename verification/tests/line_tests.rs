use hexscatter::cellset::CellSet;
use hexscatter::math::{Axial, Direction};
use std::collections::HashMap;

fn cell(q: i32, r: i32) -> Axial {
    Axial { q, r }
}

fn round_to_axial(x: f32, y: f32, z: f32) -> Axial {
    let mut rx = f32::round(x);
    let ry = f32::round(y);
    let mut rz = f32::round(z);
    let dx = f32::abs(rx - x);
    let dy = f32::abs(ry - y);
    let dz = f32::abs(rz - z);
    if dx > dz && dx > dy {
        rx = -rz - ry
    } else if dz > dy {
        rz = -rx - ry
    }
    Axial { q: f32::round(rx) as i32, r: f32::round(rz) as i32 }
}

fn samples(a: &Axial, b: &Axial) -> Vec<Axial> {
    let n = a.delta(b).length();
    let (ax, ay, az) = (a.q as f32, (-a.q - a.r) as f32, a.r as f32);
    let (bx, by, bz) = (b.q as f32, (-b.q - b.r) as f32, b.r as f32);
    let (x, y, z) = (bx - ax, by - ay, bz - az);
    let step = 1. / (n as f32);
    let mut out = Vec::new();
    for h in 0..n {
        let t = step * (h as f32);
        out.push(round_to_axial(ax + x * t, ay + y * t, az + z * t));
    }
    out
}

fn line_by_table(a: &Axial, b: &Axial, samples: &[Axial]) -> Vec<Axial> {
    let dir = a.delta(b).direction();
    let mut result = Vec::new();
    let mut visited = HashMap::new();
    for s in samples {
        let mut pnt = *s;
        while visited.get(&pnt).is_some() {
            pnt = pnt.neighbor(dir)
        }
        result.push(pnt);
        visited.insert(pnt, true);
    }
    if visited.get(b).is_none() {
        result.push(*b);
    }
    result
}

#[test]
fn line_of_a_cell_to_itself_is_the_cell() {
    let a = cell(3, -2);
    assert_eq!(Axial::line(&a, &a, &Vec::new()), vec![a]);
}

#[test]
fn line_along_an_axis() {
    let a = cell(0, 0);
    let b = cell(3, 0);
    let got = Axial::line(&a, &b, &samples(&a, &b));
    assert_eq!(got, vec![cell(0, 0), cell(1, 0), cell(2, 0), cell(3, 0)]);
    let back = Axial::line(&b, &a, &samples(&b, &a));
    assert_eq!(back, vec![cell(3, 0), cell(2, 0), cell(1, 0), cell(0, 0)]);
}

#[test]
fn line_has_no_cell_twice_and_ends_in_both_cells() {
    let mut q = -9;
    while q <= 9 {
        let mut r = -9;
        while r <= 9 {
            let a = cell(2, -3);
            let b = cell(q, r);
            let s = samples(&a, &b);
            let got = Axial::line(&a, &b, &s);
            assert_eq!(got, line_by_table(&a, &b, &s));
            let n = a.distance(&b) as usize;
            assert!(got.len() == n || got.len() == n + 1);
            assert_eq!(got[0], a);
            assert!(got.contains(&b));
            for i in 0..got.len() {
                for j in 0..i {
                    assert_ne!(got[i], got[j]);
                }
            }
            if got.len() == n + 1 {
                assert_eq!(got[n], b);
            }
            r += 1;
        }
        q += 1;
    }
}

#[test]
fn line_moves_a_taken_sample_on() {
    // From (0,0) to (2,0) the way back is longest in q, so a taken sample
    // moves one step down in q.
    let a = cell(0, 0);
    let b = cell(2, 0);
    assert_eq!(a.delta(&b).direction(), Direction::QNeg);
    let taken = vec![cell(0, 0), cell(0, 0)];
    assert_eq!(Axial::line(&a, &b, &taken), vec![cell(0, 0), cell(-1, 0), cell(2, 0)]);
    let thrice = vec![cell(1, 1), cell(0, 1), cell(1, 1)];
    let c = cell(3, 1);
    let d = cell(0, 1);
    assert_eq!(c.delta(&d).direction(), Direction::QPos);
    assert_eq!(Axial::line(&c, &d, &thrice), vec![cell(1, 1), cell(0, 1), cell(2, 1)]);
}

#[test]
fn line_leaves_out_an_end_that_a_sample_took() {
    let a = cell(0, 0);
    let b = cell(2, 0);
    let taken = vec![cell(0, 0), cell(2, 0)];
    assert_eq!(Axial::line(&a, &b, &taken), vec![cell(0, 0), cell(2, 0)]);
}

#[test]
fn long_lines_are_one_longer_than_the_distance() {
    for aq in [-77, 0, 13] {
        for ar in [0, 31] {
            for bq in -12..=12 {
                for br in -12..=12 {
                    let a = cell(aq, ar);
                    let b = cell(bq * 7, br * 5);
                    let got = Axial::line(&a, &b, &samples(&a, &b));
                    let n = a.distance(&b) as usize;
                    assert_eq!(got.len(), n + 1);
                    assert_eq!(got[0], a);
                    assert_eq!(got[n], b);
                }
            }
        }
    }
}

#[test]
fn cell_sets_keep_each_cell_once_in_order() {
    let mut set = CellSet::new();
    assert_eq!(set.len(), 0);
    assert!(set.insert(cell(1, 2)));
    assert!(set.insert(cell(0, 0)));
    assert!(!set.insert(cell(1, 2)));
    assert!(set.contains(&cell(0, 0)));
    assert!(!set.contains(&cell(2, 1)));
    set.extend(&vec![cell(0, 0), cell(5, 5), cell(5, 5), cell(-1, 0)]);
    assert_eq!(set.cells(), &vec![cell(1, 2), cell(0, 0), cell(5, 5), cell(-1, 0)]);
    assert_eq!(set.len(), 4);
    set.extend(&Vec::new());
    assert_eq!(set.len(), 4);
}

#[test]
fn area_of_lines_to_the_middle() {
    let center = cell(0, 0);
    let ring = [cell(2, 0), cell(0, 2), cell(-2, 2), cell(-2, 0), cell(0, -2), cell(2, -2)];
    let mut area = CellSet::new();
    for key in ring {
        area.insert(key);
        area.extend(&Axial::line(&key, &center, &samples(&key, &center)));
    }
    assert_eq!(area.len(), 13);
    assert!(area.contains(&center));
    for key in ring {
        assert!(area.contains(&key));
    }
    assert!(area.contains(&cell(1, 0)));
    assert!(!area.contains(&cell(1, 1)));
}
