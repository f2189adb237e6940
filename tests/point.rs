use snake::{Direction, Point};

#[test]
fn neighbor() {
    let table_size = 5;
    let point = Point::new(1, 1);

    let down = point.get_neighbor(&Direction::Down, table_size);
    let up = point.get_neighbor(&Direction::Up, table_size);
    let right = point.get_neighbor(&Direction::Right, table_size);
    let left = point.get_neighbor(&Direction::Left, table_size);

    assert_eq!(down, Point { x: 2, y: 1 });
    assert_eq!(up, Point { x: 0, y: 1 });
    assert_eq!(right, Point { x: 1, y: 2 });
    assert_eq!(left, Point { x: 1, y: 0 });

    assert_eq!(point.direction_of_neighbor(&down), Direction::Down);
    assert_eq!(point.direction_of_neighbor(&up), Direction::Up);
    assert_eq!(point.direction_of_neighbor(&right), Direction::Right);
    assert_eq!(point.direction_of_neighbor(&left), Direction::Left);

    assert_eq!(
        point.direction_of_neighbor(&Point::new(2, 3)),
        Direction::Absent
    );
}

#[test]
fn neighbor_wraps_round_the_edges() {
    let corner = Point::new(0, 0);
    assert_eq!(corner.get_neighbor(&Direction::Up, 5), Point::new(4, 0));
    assert_eq!(corner.get_neighbor(&Direction::Left, 5), Point::new(0, 4));
    let far = Point::new(4, 4);
    assert_eq!(far.get_neighbor(&Direction::Down, 5), Point::new(0, 4));
    assert_eq!(far.get_neighbor(&Direction::Right, 5), Point::new(4, 0));
    assert_eq!(far.get_neighbor(&Direction::Absent, 5), far);
}

#[test]
fn direction_across_the_edge() {
    // (0, 0) and (0, 4) on a side of 5 touch through the left edge.
    assert_eq!(Point::new(0, 0).direction_of_neighbor(&Point::new(0, 4)), Direction::Left);
    assert_eq!(Point::new(0, 4).direction_of_neighbor(&Point::new(0, 0)), Direction::Right);
    assert_eq!(Point::new(0, 2).direction_of_neighbor(&Point::new(4, 2)), Direction::Up);
    assert_eq!(Point::new(4, 2).direction_of_neighbor(&Point::new(0, 2)), Direction::Down);
    assert_eq!(Point::new(3, 3).direction_of_neighbor(&Point::new(3, 3)), Direction::Absent);
}

#[test]
fn point_accessors() {
    let p = Point::new(-3, 7);
    assert_eq!(p.get_x(), -3);
    assert_eq!(p.get_y(), 7);
}
