use snake::ids::SnakeId;
use snake::point::{BodyPart, Direction, Point};

#[test]
fn point_bytes_are_little_endian() {
    let p = Point { x: 1, y: -2 };
    assert_eq!(p.to_byte_array(), vec![1, 0, 0, 0, 254, 255, 255, 255]);
    assert_eq!(Point::from_byte_array(vec![1, 0, 0, 0, 254, 255, 255, 255, 42]), p);
    let q = Point { x: i32::MIN, y: i32::MAX };
    assert_eq!(Point::from_byte_array(q.to_byte_array()), q);
}

#[test]
fn body_part_bytes() {
    let b = BodyPart { point: Point { x: 258, y: 0 }, direction: Direction::Left };
    assert_eq!(b.to_byte_array(), vec![2, 1, 0, 0, 0, 0, 0, 0, 3]);
    assert_eq!(BodyPart::from_byte_array(b.to_byte_array()), b);
    assert_eq!(BodyPart::read_at(&[0, 0, 0, 0, 0, 0, 0, 0, 4], 0), None);
}

#[test]
fn direction_codes() {
    let all = [Direction::Up, Direction::Right, Direction::Down, Direction::Left];
    for (i, d) in all.iter().enumerate() {
        assert_eq!(d.code() as usize, i);
        assert_eq!(Direction::from_code(i as u8), Some(*d));
    }
    assert_eq!(Direction::from_code(4), None);
    assert!(Direction::Up.is_opposite(Direction::Down));
    assert!(Direction::Left.is_opposite(Direction::Right));
    assert!(!Direction::Up.is_opposite(Direction::Left));
}

#[test]
fn uuid_little_endian_order() {
    let id = SnakeId { bytes: [0xa1, 0xa2, 0xa3, 0xa4, 0xb1, 0xb2, 0xc1, 0xc2, 0xd1, 0xd2, 0xd3, 0xd4, 0xd5, 0xd6, 0xd7, 0xd8] };
    let le = id.to_bytes_le();
    assert_eq!(le, [0xa4, 0xa3, 0xa2, 0xa1, 0xb2, 0xb1, 0xc2, 0xc1, 0xd1, 0xd2, 0xd3, 0xd4, 0xd5, 0xd6, 0xd7, 0xd8]);
    assert_eq!(SnakeId::from_bytes_le(le), id);
    assert_eq!(SnakeId::from_bytes_le(id.bytes).bytes, le);
    let mut out = vec![9u8];
    id.write_le_to(&mut out);
    assert_eq!(out[0], 9);
    assert_eq!(&out[1..], &le);
    assert_eq!(SnakeId::read_le_at(&out, 1), id);
}

#[test]
fn random_ids_are_version_four() {
    let a = SnakeId::random();
    let b = SnakeId::random();
    assert_eq!(a.bytes[6] >> 4, 4);
    assert_eq!(a.bytes[8] >> 6, 2);
    assert!(!a.same_as(&b));
    assert!(a.same_as(&a));
}
