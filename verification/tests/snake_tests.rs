use snake::ids::SnakeId;
use snake::point::{BodyPart, Direction, Point};
use snake::snake::Snake;
use std::collections::VecDeque;

fn snake_of(next: Option<Direction>, parts: &[(i32, i32, Direction)]) -> Snake {
    let mut body = VecDeque::new();
    for &(x, y, d) in parts {
        body.push_back(BodyPart { point: Point { x, y }, direction: d });
    }
    Snake { id: SnakeId { bytes: [7u8; 16] }, next_direction: next, body }
}

#[test]
fn moving_straight_keeps_the_length() {
    let mut s = snake_of(None, &[(5, 5, Direction::Right), (4, 5, Direction::Right), (3, 5, Direction::Right)]);
    let eaten = s.move_forward(&Point { x: 0, y: 0 });
    assert!(!eaten);
    let parts: Vec<Point> = s.body.iter().map(|p| p.point).collect();
    assert_eq!(parts, vec![Point { x: 6, y: 5 }, Point { x: 5, y: 5 }, Point { x: 4, y: 5 }]);
}

#[test]
fn eating_grows_the_snake() {
    let mut s = snake_of(None, &[(5, 5, Direction::Right), (4, 5, Direction::Right)]);
    assert!(s.update(&Point { x: 6, y: 5 }));
    assert_eq!(s.body.len(), 3);
    assert_eq!(*s.head_position(), Point { x: 6, y: 5 });
}

#[test]
fn pending_turn_is_used_once() {
    let mut s = snake_of(None, &[(5, 5, Direction::Right)]);
    s.set_incoming_direction(Direction::Up);
    assert_eq!(s.next_direction, Some(Direction::Up));
    s.move_forward(&Point { x: 0, y: 0 });
    assert_eq!(*s.head_position(), Point { x: 5, y: 4 });
    assert_eq!(*s.direction(), Direction::Up);
    assert_eq!(s.next_direction, None);
    s.move_forward(&Point { x: 0, y: 0 });
    assert_eq!(*s.head_position(), Point { x: 5, y: 3 });
}

#[test]
fn reversing_is_ignored() {
    let mut s = snake_of(None, &[(5, 5, Direction::Right)]);
    s.set_incoming_direction(Direction::Left);
    assert_eq!(s.next_direction, None);
    s.set_incoming_direction(Direction::Down);
    assert_eq!(s.next_direction, Some(Direction::Down));
    s.set_incoming_direction(Direction::Left);
    assert_eq!(s.next_direction, Some(Direction::Down));
    let mut t = snake_of(None, &[(5, 5, Direction::Up)]);
    t.set_incoming_direction(Direction::Down);
    assert_eq!(t.next_direction, None);
}

#[test]
fn all_four_moves() {
    for (d, expected) in [
        (Direction::Up, Point { x: 0, y: -1 }),
        (Direction::Right, Point { x: 1, y: 0 }),
        (Direction::Down, Point { x: 0, y: 1 }),
        (Direction::Left, Point { x: -1, y: 0 }),
    ] {
        let s = snake_of(Some(d), &[(0, 0, Direction::Up)]);
        assert_eq!(s.next_heading(), d);
        assert_eq!(s.next_head_position(), expected);
    }
}

#[test]
fn snake_bytes_layout_and_read_back() {
    let s = snake_of(Some(Direction::Left), &[(1, -1, Direction::Down), (1, 0, Direction::Down)]);
    let bytes = s.to_byte_array();
    assert_eq!(bytes.len(), 4 + 21 + 18);
    assert_eq!(&bytes[0..4], &[39, 0, 0, 0]);
    assert_eq!(&bytes[4..20], &[7u8; 16]);
    assert_eq!(bytes[20], 3);
    assert_eq!(&bytes[21..25], &[2, 0, 0, 0]);
    assert_eq!(&bytes[25..34], &[1, 0, 0, 0, 255, 255, 255, 255, 2]);
    let back = Snake::from_byte_array(bytes[4..].to_vec());
    assert_eq!(back.id, s.id);
    assert_eq!(back.next_direction, Some(Direction::Left));
    let parts: Vec<BodyPart> = back.body.iter().copied().collect();
    let orig: Vec<BodyPart> = s.body.iter().copied().collect();
    assert_eq!(parts, orig);
}

#[test]
fn snake_parse_rejects_and_tolerates() {
    let s = snake_of(None, &[(1, 1, Direction::Up)]);
    let bytes = s.to_byte_array();
    let payload = &bytes[4..];
    assert!(Snake::parse(&payload[..20]).is_none());
    assert!(Snake::parse(&payload[..payload.len() - 1]).is_none());
    let mut bad = payload.to_vec();
    bad[16] = 9;
    assert!(Snake::parse(&bad).is_none());
    let mut longer = payload.to_vec();
    longer.extend([1, 2, 3]);
    assert_eq!(Snake::parse(&longer).unwrap().body.len(), 1);
    let mut negative = payload.to_vec();
    negative[17..21].copy_from_slice(&(-2i32).to_le_bytes());
    assert_eq!(Snake::parse(&negative).unwrap().body.len(), 0);
}
