use classer::utils::{paint_by_radius, remove_by_radius};

type Point = [f32; 2];

fn hits(points: &[Point], center: Point, radius: f32) -> Vec<bool> {
    points
        .iter()
        .map(|p| {
            let dx = p[0] - center[0];
            let dy = p[1] - center[1];
            dx * dx + dy * dy <= radius * radius
        })
        .collect()
}

fn sorted(points: &[Point]) -> Vec<(u32, u32)> {
    let mut keys: Vec<(u32, u32)> = points.iter().map(|p| (p[0].to_bits(), p[1].to_bits())).collect();
    keys.sort();
    keys
}

#[test]
fn remove_fills_each_gap_with_the_last_point() {
    let mut points: Vec<Point> = vec![[0.0, 0.0], [10.0, 0.0], [1.0, 0.0], [20.0, 0.0], [30.0, 0.0]];
    let flags = hits(&points, [0.0, 0.0], 2.0);
    assert_eq!(flags, vec![true, false, true, false, false]);
    let mut changed = false;
    remove_by_radius(&mut points, flags, &mut changed);
    assert_eq!(points, vec![[30.0, 0.0], [10.0, 0.0], [20.0, 0.0]]);
    assert!(changed);
}

#[test]
fn remove_looks_at_the_point_that_filled_the_gap() {
    let mut points: Vec<u8> = vec![1, 2, 3, 4, 5];
    let mut changed = false;
    remove_by_radius(&mut points, vec![true, false, false, false, true], &mut changed);
    assert_eq!(points, vec![4, 2, 3]);
    assert!(changed);
}

#[test]
fn remove_without_a_hit_changes_nothing() {
    let mut points: Vec<Point> = vec![[5.0, 5.0], [6.0, 6.0]];
    let flags = hits(&points, [100.0, 100.0], 1.0);
    let mut changed = false;
    remove_by_radius(&mut points, flags, &mut changed);
    assert_eq!(points, vec![[5.0, 5.0], [6.0, 6.0]]);
    assert!(!changed);
}

#[test]
fn remove_keeps_an_earlier_change() {
    let mut points: Vec<Point> = vec![[5.0, 5.0]];
    let mut changed = true;
    remove_by_radius(&mut points, vec![false], &mut changed);
    assert_eq!(points.len(), 1);
    assert!(changed);
}

#[test]
fn remove_on_the_radius_counts_as_a_hit() {
    let mut points: Vec<Point> = vec![[3.0, 4.0], [3.0, 4.5]];
    let flags = hits(&points, [0.0, 0.0], 5.0);
    let mut changed = false;
    remove_by_radius(&mut points, flags, &mut changed);
    assert_eq!(points, vec![[3.0, 4.5]]);
    assert!(changed);
}

#[test]
fn remove_everything() {
    let mut points: Vec<u8> = vec![1, 2, 3];
    let mut changed = false;
    remove_by_radius(&mut points, vec![true, true, true], &mut changed);
    assert!(points.is_empty());
    assert!(changed);
}

#[test]
fn remove_from_nothing() {
    let mut points: Vec<Point> = Vec::new();
    let mut changed = false;
    remove_by_radius(&mut points, Vec::new(), &mut changed);
    assert!(points.is_empty());
    assert!(!changed);
}

#[test]
fn remove_keeps_duplicates_apart() {
    let mut points: Vec<Point> = vec![[1.0, 1.0], [1.0, 1.0], [9.0, 9.0], [1.0, 1.0]];
    let mut changed = false;
    remove_by_radius(&mut points, vec![false, true, false, false], &mut changed);
    assert_eq!(sorted(&points), sorted(&[[1.0, 1.0], [1.0, 1.0], [9.0, 9.0]]));
    assert!(changed);
}

#[test]
fn paint_moves_the_hits_in_the_order_they_are_met() {
    let mut from: Vec<u8> = vec![1, 2, 3, 4, 5];
    let mut to: Vec<u8> = vec![9];
    let mut changed = false;
    paint_by_radius(&mut from, &mut to, vec![true, false, false, false, true], &mut changed);
    assert_eq!(from, vec![4, 2, 3]);
    assert_eq!(to, vec![9, 1, 5]);
    assert!(changed);
}

#[test]
fn paint_by_distance() {
    let mut white: Vec<Point> = vec![[0.0, 0.0], [50.0, 50.0], [1.0, 1.0]];
    let mut black: Vec<Point> = vec![[7.0, 7.0]];
    let flags = hits(&white, [0.5, 0.5], 1.0);
    let mut changed = false;
    paint_by_radius(&mut white, &mut black, flags, &mut changed);
    assert_eq!(white, vec![[50.0, 50.0]]);
    assert_eq!(black, vec![[7.0, 7.0], [0.0, 0.0], [1.0, 1.0]]);
    assert!(changed);
}

#[test]
fn paint_loses_and_makes_no_point() {
    let mut from: Vec<Point> = vec![[1.0, 0.0], [2.0, 0.0], [1.0, 0.0], [3.0, 0.0], [1.0, 0.0]];
    let mut to: Vec<Point> = vec![[1.0, 0.0], [8.0, 0.0]];
    let mut all = from.clone();
    all.extend(to.iter().copied());
    let mut changed = false;
    paint_by_radius(&mut from, &mut to, vec![true, true, false, false, true], &mut changed);
    assert_eq!(from.len(), 2);
    assert_eq!(to.len(), 5);
    let mut after = from.clone();
    after.extend(to.iter().copied());
    assert_eq!(sorted(&after), sorted(&all));
    assert_eq!(sorted(&from), sorted(&[[1.0, 0.0], [3.0, 0.0]]));
}

#[test]
fn paint_without_a_hit_changes_nothing() {
    let mut from: Vec<u8> = vec![1, 2];
    let mut to: Vec<u8> = vec![3];
    let mut changed = false;
    paint_by_radius(&mut from, &mut to, vec![false, false], &mut changed);
    assert_eq!(from, vec![1, 2]);
    assert_eq!(to, vec![3]);
    assert!(!changed);
}
