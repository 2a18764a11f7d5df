//! Cells of the board, headings, and the body parts of a snake, with their
//! byte forms.
use vstd::prelude::*;
use crate::codec::{i32_le_bytes, read_i32, lemma_read_i32_at, push_i32_le, read_i32_le};

verus! {

/// A heading on the board. `Up` lowers `y`, `Down` raises it.
#[derive(Debug, PartialEq, Eq, Structural, Clone, Copy)]
pub enum Direction {
    Up,
    Right,
    Down,
    Left,
}

/// A cell of the board.
#[derive(Debug, PartialEq, Eq, Structural, Clone, Copy, Hash)]
pub struct Point {
    pub x: i32,
    pub y: i32,
}

/// One segment of a snake: where it lies and the heading it was entered with.
#[derive(Debug, PartialEq, Eq, Structural, Clone, Copy)]
pub struct BodyPart {
    pub point: Point,
    pub direction: Direction,
}

/// The byte that stands for a heading: 0 up, 1 right, 2 down, 3 left.
pub open spec fn direction_code(d: Direction) -> u8 {
    match d {
        Direction::Up => 0,
        Direction::Right => 1,
        Direction::Down => 2,
        Direction::Left => 3,
    }
}

/// The heading a byte stands for, if any.
pub open spec fn direction_of_code(b: u8) -> Option<Direction> {
    if b == 0 {
        Some(Direction::Up)
    } else if b == 1 {
        Some(Direction::Right)
    } else if b == 2 {
        Some(Direction::Down)
    } else if b == 3 {
        Some(Direction::Left)
    } else {
        None
    }
}

/// Whether two headings point in opposite ways.
pub open spec fn opposite(a: Direction, b: Direction) -> bool {
    ||| (a == Direction::Up && b == Direction::Down)
    ||| (a == Direction::Down && b == Direction::Up)
    ||| (a == Direction::Left && b == Direction::Right)
    ||| (a == Direction::Right && b == Direction::Left)
}

/// The eight bytes of a point: `x` then `y`, each little-endian.
pub open spec fn point_bytes(p: Point) -> Seq<u8> {
    i32_le_bytes(p.x) + i32_le_bytes(p.y)
}

/// The point stored at `at .. at + 8` of `b`.
pub open spec fn point_at(b: Seq<u8>, at: int) -> Point {
    Point { x: read_i32(b, at), y: read_i32(b, at + 4) }
}

/// The nine bytes of a body part: its point, then its heading's code.
pub open spec fn body_part_bytes(p: BodyPart) -> Seq<u8> {
    point_bytes(p.point).push(direction_code(p.direction))
}

/// The body part stored at `at .. at + 9` of `b`, if its heading byte is a
/// heading's code.
pub open spec fn body_part_at(b: Seq<u8>, at: int) -> Option<BodyPart> {
    match direction_of_code(b[at + 8]) {
        Some(d) => Some(BodyPart { point: point_at(b, at), direction: d }),
        None => None,
    }
}

/// Two headings are opposite exactly when their codes differ by two
/// (modulo four): up and down, right and left, in either order. The relation
/// is symmetric and no heading is opposite to itself.
pub proof fn lemma_opposite_is_reversal(a: Direction, b: Direction)
    ensures
        opposite(a, b) <==> (direction_code(a) + 2) % 4 == direction_code(b),
        opposite(a, b) == opposite(b, a),
        !opposite(a, a),
{
}

/// The code of a heading is read back as that heading.
pub proof fn lemma_direction_code_roundtrip(d: Direction)
    ensures
        direction_of_code(direction_code(d)) == Some(d),
{
}

/// A point written between any two byte strings is read back unchanged.
pub proof fn lemma_point_roundtrip(pre: Seq<u8>, p: Point, post: Seq<u8>)
    ensures
        point_at(pre + point_bytes(p) + post, pre.len() as int) == p,
{
    let b = pre + point_bytes(p) + post;
    assert(b =~= pre + i32_le_bytes(p.x) + (i32_le_bytes(p.y) + post));
    lemma_read_i32_at(pre, p.x, i32_le_bytes(p.y) + post);
    assert(b =~= (pre + i32_le_bytes(p.x)) + i32_le_bytes(p.y) + post);
    lemma_read_i32_at(pre + i32_le_bytes(p.x), p.y, post);
}

/// A body part written between any two byte strings is read back unchanged.
pub proof fn lemma_body_part_roundtrip(pre: Seq<u8>, p: BodyPart, post: Seq<u8>)
    ensures
        body_part_at(pre + body_part_bytes(p) + post, pre.len() as int) == Some(p),
{
    let b = pre + body_part_bytes(p) + post;
    assert(b =~= pre + point_bytes(p.point) + (seq![direction_code(p.direction)] + post));
    lemma_point_roundtrip(pre, p.point, seq![direction_code(p.direction)] + post);
    assert(b[pre.len() as int + 8] == direction_code(p.direction));
}

impl Direction {
    /// The byte that stands for this heading.
    pub fn code(self) -> (b: u8)
        ensures
            b == direction_code(self),
    {
        match self {
            Direction::Up => 0,
            Direction::Right => 1,
            Direction::Down => 2,
            Direction::Left => 3,
        }
    }

    /// The heading a byte stands for; `None` for a byte above 3.
    pub fn from_code(b: u8) -> (d: Option<Direction>)
        ensures
            d == direction_of_code(b),
    {
        if b == 0 {
            Some(Direction::Up)
        } else if b == 1 {
            Some(Direction::Right)
        } else if b == 2 {
            Some(Direction::Down)
        } else if b == 3 {
            Some(Direction::Left)
        } else {
            None
        }
    }

    /// Whether `other` points the opposite way.
    pub fn is_opposite(self, other: Direction) -> (r: bool)
        ensures
            r == opposite(self, other),
    {
        match (self, other) {
            (Direction::Up, Direction::Down)
            | (Direction::Down, Direction::Up)
            | (Direction::Left, Direction::Right)
            | (Direction::Right, Direction::Left) => true,
            _ => false,
        }
    }
}

impl Point {
    /// Reads a point from the first eight bytes of `input`; the rest is ignored.
    pub fn from_byte_array(input: Vec<u8>) -> (p: Point)
        requires
            input@.len() >= 8,
        ensures
            p == point_at(input@, 0),
    {
        Point::read_at(input.as_slice(), 0)
    }

    /// Reads the point at `at .. at + 8` of `b`.
    pub fn read_at(b: &[u8], at: usize) -> (p: Point)
        requires
            at + 8 <= b.len(),
        ensures
            p == point_at(b@, at as int),
    {
        let x = read_i32_le(b, at);
        let y = read_i32_le(b, at + 4);
        Point { x, y }
    }

    /// The eight bytes of this point.
    pub fn to_byte_array(&self) -> (bytes: Vec<u8>)
        ensures
            bytes@ == point_bytes(*self),
    {
        let mut bytes: Vec<u8> = Vec::new();
        self.write_to(&mut bytes);
        assert(bytes@ =~= point_bytes(*self));
        bytes
    }

    /// Appends the eight bytes of this point to `out`.
    pub fn write_to(&self, out: &mut Vec<u8>)
        ensures
            final(out)@ == old(out)@ + point_bytes(*self),
    {
        push_i32_le(out, self.x);
        push_i32_le(out, self.y);
        assert(out@ =~= old(out)@ + point_bytes(*self));
    }
}

impl BodyPart {
    /// The nine bytes of this body part.
    pub fn to_byte_array(&self) -> (bytes: Vec<u8>)
        ensures
            bytes@ == body_part_bytes(*self),
    {
        let mut bytes: Vec<u8> = Vec::new();
        self.write_to(&mut bytes);
        assert(bytes@ =~= body_part_bytes(*self));
        bytes
    }

    /// Appends the nine bytes of this body part to `out`.
    pub fn write_to(&self, out: &mut Vec<u8>)
        ensures
            final(out)@ == old(out)@ + body_part_bytes(*self),
    {
        self.point.write_to(out);
        out.push(self.direction.code());
        assert(out@ =~= old(out)@ + body_part_bytes(*self));
    }

    /// Reads a body part from the first nine bytes of `input`; the rest is
    /// ignored. The ninth byte must be a heading's code.
    pub fn from_byte_array(input: Vec<u8>) -> (p: BodyPart)
        requires
            input@.len() >= 9,
            input@[8] <= 3,
        ensures
            Some(p) == body_part_at(input@, 0),
    {
        match BodyPart::read_at(input.as_slice(), 0) {
            Some(p) => p,
            None => {
                assert(false);
                BodyPart { point: Point { x: 0, y: 0 }, direction: Direction::Up }
            },
        }
    }

    /// Reads the body part at `at .. at + 9` of `b`; `None` when its heading
    /// byte is above 3.
    pub fn read_at(b: &[u8], at: usize) -> (p: Option<BodyPart>)
        requires
            at + 9 <= b.len(),
        ensures
            p == body_part_at(b@, at as int),
    {
        let point = Point::read_at(b, at);
        match Direction::from_code(b[at + 8]) {
            Some(direction) => Some(BodyPart { point, direction }),
            None => None,
        }
    }
}

} // verus!
