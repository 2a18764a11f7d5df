//! A snake: its body, its pending turn, how it moves, and its byte form.
use std::collections::VecDeque;
use vstd::prelude::*;
use crate::codec::{i32_le_bytes, read_i32, lemma_read_i32_at, push_i32_le, read_i32_le};
use crate::ids::{SnakeId, uuid_le_order, lemma_le_order_involution};
use crate::point::{
    BodyPart, Direction, Point, body_part_at, body_part_bytes, direction_code, direction_of_code,
    opposite, lemma_body_part_roundtrip,
};

verus! {

/// A snake on the board. `body[0]` is the head; each part records the
/// heading with which it was entered.
#[derive(Debug)]
pub struct Snake {
    pub id: SnakeId,
    pub next_direction: Option<Direction>,
    pub body: VecDeque<BodyPart>,
}

/// The mathematical value of a snake.
#[verifier::ext_equal]
pub struct SnakeView {
    pub id: Seq<u8>,
    pub next_direction: Option<Direction>,
    pub body: Seq<BodyPart>,
}

impl View for Snake {
    type V = SnakeView;

    open spec fn view(&self) -> SnakeView {
        SnakeView { id: self.id@, next_direction: self.next_direction, body: self.body@ }
    }
}

/// The heading of the next move: the pending turn if there is one, else the
/// heading of the head.
pub open spec fn heading(s: SnakeView) -> Direction {
    match s.next_direction {
        Some(d) => d,
        None => s.body[0].direction,
    }
}

/// The column the head moves to, as an unbounded integer.
pub open spec fn target_x(s: SnakeView) -> int {
    let h = s.body[0].point;
    match heading(s) {
        Direction::Right => h.x + 1,
        Direction::Left => h.x - 1,
        _ => h.x as int,
    }
}

/// The row the head moves to, as an unbounded integer.
pub open spec fn target_y(s: SnakeView) -> int {
    let h = s.body[0].point;
    match heading(s) {
        Direction::Down => h.y + 1,
        Direction::Up => h.y - 1,
        _ => h.y as int,
    }
}

/// Whether the snake has a head and its next cell has `i32` coordinates.
pub open spec fn can_move(s: SnakeView) -> bool {
    &&& s.body.len() > 0
    &&& i32::MIN <= target_x(s) <= i32::MAX
    &&& i32::MIN <= target_y(s) <= i32::MAX
}

/// The cell the head moves to.
pub open spec fn next_head(s: SnakeView) -> Point {
    Point { x: target_x(s) as i32, y: target_y(s) as i32 }
}

/// The snake after one move towards `apple`: a new head is put in front and
/// the pending turn is used up; unless the new head lands on the apple, the
/// last part is dropped.
pub open spec fn moved(s: SnakeView, apple: Point) -> SnakeView {
    let grown = seq![BodyPart { point: next_head(s), direction: heading(s) }] + s.body;
    SnakeView {
        id: s.id,
        next_direction: None,
        body: if next_head(s) == apple {
            grown
        } else {
            grown.drop_last()
        },
    }
}

/// The snake after a request to turn to `d`: the turn is kept unless `d`
/// points against the heading of the head.
pub open spec fn turned(s: SnakeView, d: Direction) -> SnakeView {
    if opposite(d, s.body[0].direction) {
        s
    } else {
        SnakeView { next_direction: Some(d), ..s }
    }
}

/// The byte of a pending turn: its heading's code, or 4 for none.
pub open spec fn pending_code(n: Option<Direction>) -> u8 {
    match n {
        Some(d) => direction_code(d),
        None => 4,
    }
}

/// The bytes of a sequence of body parts, one after another.
pub open spec fn parts_bytes(ps: Seq<BodyPart>) -> Seq<u8>
    decreases ps.len(),
{
    if ps.len() == 0 {
        seq![]
    } else {
        parts_bytes(ps.drop_last()) + body_part_bytes(ps.last())
    }
}

/// The bytes of a snake without its length prefix: identifier (in sent
/// order), pending-turn byte, number of parts, then the parts.
#[verifier::opaque]
pub open spec fn snake_payload(s: SnakeView) -> Seq<u8> {
    uuid_le_order(s.id) + seq![pending_code(s.next_direction)] + i32_le_bytes(s.body.len() as i32)
        + parts_bytes(s.body)
}

/// The bytes of a snake: the length of its payload, then the payload.
pub open spec fn snake_bytes(s: SnakeView) -> Seq<u8> {
    i32_le_bytes(snake_payload(s).len() as i32) + snake_payload(s)
}

/// The `n` body parts stored from `at` on, nine bytes each, if all of them
/// lie inside `b` and carry a heading's code.
pub open spec fn parts_at(b: Seq<u8>, at: int, n: nat) -> Option<Seq<BodyPart>>
    decreases n,
{
    if n == 0 {
        Some(seq![])
    } else {
        match parts_at(b, at, (n - 1) as nat) {
            Some(ps) => if at + 9 * n <= b.len() {
                match body_part_at(b, at + 9 * (n - 1)) {
                    Some(p) => Some(ps.push(p)),
                    None => None,
                }
            } else {
                None
            },
            None => None,
        }
    }
}

/// The number of body parts a snake's bytes announce; a negative count
/// stands for none.
pub open spec fn announced_parts(b: Seq<u8>) -> nat {
    let c = read_i32(b, 17);
    if c < 0 {
        0
    } else {
        c as nat
    }
}

/// The snake stored in `b` (without length prefix), if `b` holds one: at least
/// 21 bytes, a pending-turn byte of at most 4, and all announced parts
/// present and valid. Bytes after the last part are ignored.
#[verifier::opaque]
pub open spec fn parse_snake(b: Seq<u8>) -> Option<SnakeView> {
    if b.len() < 21 || b[16] > 4 {
        None
    } else {
        match parts_at(b, 21, announced_parts(b)) {
            Some(ps) => Some(
                SnakeView {
                    id: uuid_le_order(b.subrange(0, 16)),
                    next_direction: direction_of_code(b[16]),
                    body: ps,
                },
            ),
            None => None,
        }
    }
}

/// Whether the pending turn, if any, does not point against the head.
pub open spec fn turn_allowed(s: SnakeView) -> bool {
    match s.next_direction {
        Some(d) => !opposite(d, s.body[0].direction),
        None => true,
    }
}

/// One move puts the new head, entered with the move's heading, in front
/// of the old parts; the last part is dropped unless the apple is eaten, so
/// the length grows by one exactly when the apple is eaten. The pending turn
/// is used up and the identifier is kept.
pub proof fn lemma_move_shape(s: SnakeView, apple: Point)
    requires
        s.body.len() > 0,
    ensures
        ({
            let m = moved(s, apple);
            &&& m.body.len() == s.body.len() + if next_head(s) == apple {
                1int
            } else {
                0int
            }
            &&& m.body[0] == BodyPart { point: next_head(s), direction: heading(s) }
            &&& forall|i: int| 1 <= i < m.body.len() ==> #[trigger] m.body[i] == s.body[i - 1]
            &&& m.next_direction is None
            &&& m.id == s.id
            &&& turn_allowed(m)
        }),
{
}

/// How far a step with heading `d` moves along x: right is +1, left -1.
pub open spec fn step_x(d: Direction) -> int {
    if d == Direction::Right {
        1
    } else if d == Direction::Left {
        -1
    } else {
        0
    }
}

/// How far a step with heading `d` moves along y: down is +1, up -1.
pub open spec fn step_y(d: Direction) -> int {
    if d == Direction::Down {
        1
    } else if d == Direction::Up {
        -1
    } else {
        0
    }
}

/// The next head is the head's neighbour one step along the pending turn;
/// with no pending turn, one step along the head's own heading
/// (`body[0].direction`), whatever the other parts are.
pub proof fn lemma_next_head_steps_from_head(s: SnakeView)
    requires
        can_move(s),
    ensures
        s.next_direction is None ==> {
            &&& next_head(s).x == s.body[0].point.x + step_x(s.body[0].direction)
            &&& next_head(s).y == s.body[0].point.y + step_y(s.body[0].direction)
        },
        s.next_direction matches Some(d) ==> {
            &&& next_head(s).x == s.body[0].point.x + step_x(d)
            &&& next_head(s).y == s.body[0].point.y + step_y(d)
        },
{
}

/// Two snakes with the same head and no pending turn move to the same cell
/// with the same heading: the rest of the body plays no part.
pub proof fn lemma_next_head_depends_on_head_only(s: SnakeView, t: SnakeView)
    requires
        can_move(s),
        can_move(t),
        s.next_direction is None,
        t.next_direction is None,
        s.body[0] == t.body[0],
    ensures
        next_head(s) == next_head(t),
        heading(s) == s.body[0].direction,
        heading(t) == heading(s),
{
}

/// A turn request is kept exactly when the requested heading is not the
/// reverse of the head's heading (codes differing by two modulo four);
/// otherwise the snake is left as it is. The body and identifier never
/// change.
pub proof fn lemma_turn_kept_unless_reversal(s: SnakeView, d: Direction)
    requires
        s.body.len() > 0,
    ensures
        (direction_code(d) + 2) % 4 == direction_code(s.body[0].direction) ==> turned(s, d) == s,
        (direction_code(d) + 2) % 4 != direction_code(s.body[0].direction) ==> turned(
            s,
            d,
        ).next_direction == Some(d),
        turned(s, d).body == s.body,
        turned(s, d).id == s.id,
{
}

/// After any turn request, the heading of the next move is never the
/// reverse of the head's heading, if it was not before.
pub proof fn lemma_turn_never_heads_back(s: SnakeView, d: Direction)
    requires
        s.body.len() > 0,
        (direction_code(heading(s)) + 2) % 4 != direction_code(s.body[0].direction),
    ensures
        (direction_code(heading(turned(s, d))) + 2) % 4 != direction_code(
            turned(s, d).body[0].direction,
        ),
{
}

/// A requested turn never leaves a pending turn that points against the
/// head: if none did before, none does after, and the body is untouched.
pub proof fn lemma_turn_never_reverses(s: SnakeView, d: Direction)
    requires
        s.body.len() > 0,
        turn_allowed(s),
    ensures
        turn_allowed(turned(s, d)),
        turned(s, d).body == s.body,
        turned(s, d).id == s.id,
{
}

/// The payload of a snake written by `Snake::to_byte_array` (its bytes after
/// the four-byte length) is read back by `Snake::from_byte_array` as the
/// same snake, and the length prefix holds the payload's length, whenever
/// that length (21 bytes plus 9 per part) fits in an `i32`.
pub proof fn lemma_snake_bytes_read_back(s: Snake)
    requires
        21 + 9 * s@.body.len() <= i32::MAX,
    ensures
        ({
            let b = snake_bytes(s@);
            &&& read_i32(b, 0) == b.len() - 4
            &&& parse_snake(b.subrange(4, b.len() as int)) == Some(s@)
        }),
{
    lemma_snake_payload_len(s@);
    let p = snake_payload(s@);
    let b = snake_bytes(s@);
    assert(b =~= seq![] + i32_le_bytes(p.len() as i32) + p);
    lemma_read_i32_at(seq![], p.len() as i32, p);
    assert(b.subrange(4, b.len() as int) =~= p);
    lemma_snake_payload_roundtrip(s@);
}

/// A snake's payload takes `21 + 9 n` bytes for `n` parts.
pub proof fn lemma_snake_payload_len(s: SnakeView)
    requires
        s.id.len() == 16,
    ensures
        snake_payload(s).len() == 21 + 9 * s.body.len(),
{
    reveal(snake_payload);
    lemma_parts_bytes_len(s.body);
}

/// The bytes of `n` parts take `9 * n` bytes.
pub proof fn lemma_parts_bytes_len(ps: Seq<BodyPart>)
    ensures
        parts_bytes(ps).len() == 9 * ps.len(),
    decreases ps.len(),
{
    if ps.len() > 0 {
        lemma_parts_bytes_len(ps.drop_last());
    }
}

/// The bytes of the first `i + 1` parts are those of the first `i` parts
/// followed by part `i`.
pub proof fn lemma_parts_bytes_take(ps: Seq<BodyPart>, i: int)
    requires
        0 <= i < ps.len(),
    ensures
        parts_bytes(ps.take(i + 1)) == parts_bytes(ps.take(i)) + body_part_bytes(ps[i]),
{
    assert(ps.take(i + 1).drop_last() =~= ps.take(i));
}

/// Once reading parts fails, reading more parts fails too.
pub proof fn lemma_parts_at_fails_on(b: Seq<u8>, at: int, k: nat, n: nat)
    requires
        k <= n,
        parts_at(b, at, k) is None,
    ensures
        parts_at(b, at, n) is None,
    decreases n,
{
    if k < n {
        lemma_parts_at_fails_on(b, at, k, (n - 1) as nat);
    }
}

/// Parts written between any two byte strings are read back unchanged.
pub proof fn lemma_parts_roundtrip(pre: Seq<u8>, ps: Seq<BodyPart>, post: Seq<u8>)
    ensures
        parts_at(pre + parts_bytes(ps) + post, pre.len() as int, ps.len()) == Some(ps),
    decreases ps.len(),
{
    if ps.len() > 0 {
        let n = ps.len();
        let dl = ps.drop_last();
        let last = ps.last();
        let b = pre + parts_bytes(ps) + post;
        assert(b =~= pre + parts_bytes(dl) + (body_part_bytes(last) + post));
        lemma_parts_roundtrip(pre, dl, body_part_bytes(last) + post);
        lemma_parts_bytes_len(dl);
        lemma_parts_bytes_len(ps);
        assert(b =~= (pre + parts_bytes(dl)) + body_part_bytes(last) + post);
        lemma_body_part_roundtrip(pre + parts_bytes(dl), last, post);
        assert(dl.push(last) =~= ps);
    }
}

/// A snake's payload is read back as that snake, whenever its number of
/// parts fits in an `i32`.
pub proof fn lemma_snake_payload_roundtrip(s: SnakeView)
    requires
        s.id.len() == 16,
        s.body.len() <= i32::MAX,
    ensures
        parse_snake(snake_payload(s)) == Some(s),
{
    reveal(snake_payload);
    reveal(parse_snake);
    let b = snake_payload(s);
    let head = uuid_le_order(s.id) + seq![pending_code(s.next_direction)];
    lemma_parts_bytes_len(s.body);
    assert(b =~= head + i32_le_bytes(s.body.len() as i32) + parts_bytes(s.body));
    lemma_read_i32_at(head, s.body.len() as i32, parts_bytes(s.body));
    assert(announced_parts(b) == s.body.len());
    assert(b =~= (head + i32_le_bytes(s.body.len() as i32)) + parts_bytes(s.body) + seq![]);
    lemma_parts_roundtrip(head + i32_le_bytes(s.body.len() as i32), s.body, seq![]);
    assert(b.subrange(0, 16) =~= uuid_le_order(s.id));
    lemma_le_order_involution(s.id);
    assert(b[16] == pending_code(s.next_direction));
    assert(direction_of_code(pending_code(s.next_direction)) == s.next_direction);
}

impl Snake {
    /// Moves the snake one cell; see `Snake::move_forward`.
    pub fn update(&mut self, apple: &Point) -> (eaten: bool)
        requires
            can_move(old(self)@),
        ensures
            final(self)@ == moved(old(self)@, *apple),
            eaten == (next_head(old(self)@) == *apple),
    {
        self.move_forward(apple)
    }

    /// Moves the snake one cell in the direction of the pending turn (or
    /// straight on when there is none) and clears the pending turn. Returns
    /// whether the new head is on the apple; then the snake keeps its last
    /// part and so grows by one.
    pub fn move_forward(&mut self, apple: &Point) -> (eaten: bool)
        requires
            can_move(old(self)@),
        ensures
            final(self)@ == moved(old(self)@, *apple),
            eaten == (next_head(old(self)@) == *apple),
    {
        let direction = self.next_heading();
        let point = self.next_head_position();
        self.next_direction = None;
        self.body.push_front(BodyPart { point, direction });
        if point == *apple {
            return true;
        }
        self.body.pop_back();
        false
    }

    /// The heading of the next move: the pending turn, or the heading of the
    /// head when there is none.
    pub fn next_heading(&self) -> (d: Direction)
        requires
            self@.body.len() > 0,
        ensures
            d == heading(self@),
    {
        match self.next_direction {
            Some(d) => d,
            None => *self.direction(),
        }
    }

    /// Whether the snake can make its next move (see `can_move`).
    pub fn can_move_now(&self) -> (r: bool)
        ensures
            r == can_move(self@),
    {
        if self.body.len() == 0 {
            return false;
        }
        let head = self.body[0].point;
        match self.next_heading() {
            Direction::Up => head.y > i32::MIN,
            Direction::Right => head.x < i32::MAX,
            Direction::Down => head.y < i32::MAX,
            Direction::Left => head.x > i32::MIN,
        }
    }

    /// The cell the head moves to at the next move.
    pub fn next_head_position(&self) -> (p: Point)
        requires
            can_move(self@),
        ensures
            p == next_head(self@),
    {
        let head = *self.head_position();
        match self.next_heading() {
            Direction::Up => Point { x: head.x, y: head.y - 1 },
            Direction::Right => Point { x: head.x + 1, y: head.y },
            Direction::Down => Point { x: head.x, y: head.y + 1 },
            Direction::Left => Point { x: head.x - 1, y: head.y },
        }
    }

    /// Asks the snake to turn to `direction` at its next move. A request to
    /// reverse onto its own neck is ignored.
    pub fn set_incoming_direction(&mut self, direction: Direction)
        requires
            old(self)@.body.len() > 0,
        ensures
            final(self)@ == turned(old(self)@, direction),
    {
        let current = *self.direction();
        if !direction.is_opposite(current) {
            self.next_direction = Some(direction);
        }
    }

    /// The cell of the head.
    pub fn head_position(&self) -> (p: &Point)
        requires
            self@.body.len() > 0,
        ensures
            *p == self@.body[0].point,
    {
        &self.body[0].point
    }

    /// The heading of the head.
    pub fn direction(&self) -> (d: &Direction)
        requires
            self@.body.len() > 0,
        ensures
            *d == self@.body[0].direction,
    {
        &self.body[0].direction
    }

    /// Reads a snake from its bytes without length prefix (see
    /// `parse_snake`). The bytes must hold a snake.
    pub fn from_byte_array(input: Vec<u8>) -> (s: Snake)
        requires
            parse_snake(input@) is Some,
        ensures
            s@ == parse_snake(input@).unwrap(),
    {
        match Snake::parse(input.as_slice()) {
            Some(s) => s,
            None => {
                assert(false);
                Snake { id: SnakeId { bytes: [0u8; 16] }, next_direction: None, body: VecDeque::new() }
            },
        }
    }

    /// Reads a snake from its bytes without length prefix; `None` exactly
    /// when the bytes hold no snake.
    pub fn parse(b: &[u8]) -> (s: Option<Snake>)
        ensures
            match s {
                Some(s) => parse_snake(b@) == Some(s@),
                None => parse_snake(b@) is None,
            },
    {
        reveal(parse_snake);
        if b.len() < 21 {
            return None;
        }
        let code = b[16];
        if code > 4 {
            return None;
        }
        let id = SnakeId::read_le_at(b, 0);
        let next_direction = Direction::from_code(code);
        let count = read_i32_le(b, 17);
        let n: usize = if count < 0 { 0 } else { count as usize };
        proof {
            assert(n == announced_parts(b@));
        }
        let mut body: VecDeque<BodyPart> = VecDeque::new();
        let mut i: usize = 0;
        let mut offset: usize = 21;
        while i < n
            invariant
                i <= n,
                n == announced_parts(b@),
                offset == 21 + 9 * i,
                offset <= b.len(),
                parts_at(b@, 21, i as nat) == Some(body@),
            decreases n - i,
        {
            if b.len() - offset < 9 {
                proof {
                    reveal(parse_snake);
                    assert(parts_at(b@, 21, (i + 1) as nat) is None);
                    lemma_parts_at_fails_on(b@, 21, (i + 1) as nat, n as nat);
                }
                return None;
            }
            match BodyPart::read_at(b, offset) {
                Some(part) => {
                    body.push_back(part);
                },
                None => {
                    proof {
                        reveal(parse_snake);
                        assert(parts_at(b@, 21, (i + 1) as nat) is None);
                        lemma_parts_at_fails_on(b@, 21, (i + 1) as nat, n as nat);
                    }
                    return None;
                },
            }
            i = i + 1;
            offset = offset + 9;
        }
        Some(Snake { id, next_direction, body })
    }

    /// The bytes of this snake: the length of its payload, then the payload
    /// (see `snake_bytes`). The number of parts must fit in an `i32`.
    pub fn to_byte_array(&self) -> (bytes: Vec<u8>)
        requires
            self@.body.len() <= i32::MAX,
        ensures
            bytes@ == snake_bytes(self@),
    {
        let mut payload: Vec<u8> = Vec::new();
        self.id.write_le_to(&mut payload);
        let code = match self.next_direction {
            Some(d) => d.code(),
            None => 4,
        };
        payload.push(code);
        let count = self.body.len();
        push_i32_le(&mut payload, count as i32);
        let ghost head = payload@;
        let mut i: usize = 0;
        while i < count
            invariant
                i <= count,
                count == self@.body.len(),
                payload@ == head + parts_bytes(self@.body.take(i as int)),
            decreases count - i,
        {
            proof {
                lemma_parts_bytes_take(self@.body, i as int);
            }
            self.body[i].write_to(&mut payload);
            i = i + 1;
            assert(payload@ =~= head + parts_bytes(self@.body.take(i as int)));
        }
        assert(self@.body.take(count as int) =~= self@.body);
        reveal(snake_payload);
        assert(payload@ =~= snake_payload(self@));
        let mut bytes: Vec<u8> = Vec::new();
        push_i32_le(&mut bytes, payload.len() as i32);
        bytes.append(&mut payload);
        bytes
    }
}

} // verus!
