use triversi::position::{Direction, Ray, MAX_RANGE};

#[test]
fn steps_from_the_middle_of_the_board() {
    assert_eq!(Direction::Left.step((1, 3), 5), Some((0, 3)));
    assert_eq!(Direction::Right.step((1, 3), 5), Some((2, 3)));
    assert_eq!(Direction::Up.step((1, 3), 5), Some((1, 2)));
    assert_eq!(Direction::Down.step((1, 3), 5), Some((1, 4)));
    assert_eq!(Direction::LeftUp.step((1, 3), 5), Some((0, 2)));
    assert_eq!(Direction::RightDown.step((1, 3), 5), Some((2, 4)));
}

#[test]
fn steps_stop_at_the_apex() {
    assert_eq!(Direction::Left.step((0, 0), 5), None);
    assert_eq!(Direction::Right.step((0, 0), 5), None);
    assert_eq!(Direction::Up.step((0, 0), 5), None);
    assert_eq!(Direction::LeftUp.step((0, 0), 5), None);
    assert_eq!(Direction::Down.step((0, 0), 5), Some((0, 1)));
    assert_eq!(Direction::RightDown.step((0, 0), 5), Some((1, 1)));
}

#[test]
fn steps_stop_at_the_edges() {
    // the end of a row: no way to the right, and none up along the column
    assert_eq!(Direction::Right.step((3, 3), 5), None);
    assert_eq!(Direction::Up.step((3, 3), 5), None);
    assert_eq!(Direction::LeftUp.step((3, 3), 5), Some((2, 2)));
    // the left edge
    assert_eq!(Direction::Left.step((0, 2), 5), None);
    assert_eq!(Direction::LeftUp.step((0, 2), 5), None);
    assert_eq!(Direction::Up.step((0, 2), 5), Some((0, 1)));
    // the base
    assert_eq!(Direction::Down.step((2, 4), 5), None);
    assert_eq!(Direction::RightDown.step((2, 4), 5), None);
    assert_eq!(Direction::Left.step((2, 4), 5), Some((1, 4)));
    assert_eq!(Direction::Right.step((2, 4), 5), Some((3, 4)));
}

fn walk(direction: Direction, start: (usize, usize), range: usize) -> Vec<(usize, usize)> {
    let mut ray = Ray::new(direction, start, range);
    let mut seen = Vec::new();
    while let Some(p) = ray.next() {
        seen.push(p);
    }
    // a ray that has ended stays ended
    assert_eq!(ray.next(), None);
    assert_eq!(ray.next(), None);
    seen
}

#[test]
fn rays_run_to_the_edge() {
    assert_eq!(walk(Direction::Left, (3, 4), 5), vec![(2, 4), (1, 4), (0, 4)]);
    assert_eq!(walk(Direction::Right, (1, 4), 5), vec![(2, 4), (3, 4), (4, 4)]);
    assert_eq!(walk(Direction::Up, (1, 4), 5), vec![(1, 3), (1, 2), (1, 1)]);
    assert_eq!(walk(Direction::Down, (0, 0), 5), vec![(0, 1), (0, 2), (0, 3), (0, 4)]);
    assert_eq!(walk(Direction::LeftUp, (2, 4), 5), vec![(1, 3), (0, 2)]);
    assert_eq!(walk(Direction::RightDown, (0, 0), 5), vec![(1, 1), (2, 2), (3, 3), (4, 4)]);
}

#[test]
fn rays_from_the_edge_are_empty() {
    assert_eq!(walk(Direction::Left, (0, 2), 5), vec![]);
    assert_eq!(walk(Direction::Right, (2, 2), 5), vec![]);
    assert_eq!(walk(Direction::Up, (2, 2), 5), vec![]);
    assert_eq!(walk(Direction::Down, (1, 4), 5), vec![]);
    assert_eq!(walk(Direction::LeftUp, (0, 3), 5), vec![]);
    assert_eq!(walk(Direction::RightDown, (4, 4), 5), vec![]);
}

#[test]
fn the_largest_range_is_two_to_the_twenty_four() {
    assert_eq!(MAX_RANGE, 1 << 24);
}
