//! The game: its board, its snakes, one tick of play, and the byte form in
//! which a game is sent to the server and received back.
use std::collections::VecDeque;
use rand::RngExt;
use vstd::prelude::*;
use crate::codec::{
    i32_le_bytes, read_i32, lemma_read_i32_at, lemma_read_i32_prefix, lemma_starts_with_add,
    lemma_starts_with_trans, push_i32_le, read_i32_le,
};
use crate::ids::{SnakeId, uuid_le_order, lemma_le_order_involution};
use crate::point::{BodyPart, Direction, Point, point_at, point_bytes, lemma_point_roundtrip};
use crate::snake::{
    Snake, SnakeView, can_move, moved, next_head, parse_snake, snake_bytes, snake_payload,
    lemma_move_shape,
    lemma_snake_payload_len, lemma_snake_payload_roundtrip,
};

verus! {

/// Whether the game is still being played.
#[derive(Debug, PartialEq, Eq, Structural, Clone, Copy)]
pub enum GameState {
    Running,
    GameOver,
}

/// Where the client sends its games.
#[derive(Debug)]
pub struct Config {
    pub server_addr: String,
}

/// What a tick asks the caller to do: send `payload` to `server_addr` and
/// replace the game with the game the server sends back.
#[derive(Debug)]
pub struct Outbound {
    pub server_addr: String,
    pub payload: Vec<u8>,
}

/// A game of snake on a `width` by `height` board. The player steers the
/// first snake whose identifier is `player_snake_id`.
#[derive(Debug)]
pub struct Game {
    pub snakes: Vec<Snake>,
    pub player_snake_id: SnakeId,
    pub apple: Point,
    pub state: GameState,
    pub width: i32,
    pub height: i32,
}

/// The mathematical value of a game.
#[verifier::ext_equal]
pub struct GameView {
    pub snakes: Seq<SnakeView>,
    pub player_snake_id: Seq<u8>,
    pub apple: Point,
    pub state: GameState,
    pub width: i32,
    pub height: i32,
}

impl View for Game {
    type V = GameView;

    open spec fn view(&self) -> GameView {
        GameView {
            snakes: self.snakes@.map_values(|s: Snake| s@),
            player_snake_id: self.player_snake_id@,
            apple: self.apple,
            state: self.state,
            width: self.width,
            height: self.height,
        }
    }
}

/// The byte of a game state: 0 running, 1 over.
pub open spec fn state_code(s: GameState) -> u8 {
    match s {
        GameState::Running => 0,
        GameState::GameOver => 1,
    }
}

/// The game state a byte of at most 1 stands for.
pub open spec fn state_of_code(b: u8) -> GameState {
    if b == 0 {
        GameState::Running
    } else {
        GameState::GameOver
    }
}

/// Whether some snake carries the player's identifier.
pub open spec fn has_player(g: GameView) -> bool {
    exists|i: int| 0 <= i < g.snakes.len() && #[trigger] g.snakes[i].id == g.player_snake_id
}

/// Whether `i` is the first index of a snake with the player's identifier.
pub open spec fn is_player_index(g: GameView, i: int) -> bool {
    &&& 0 <= i < g.snakes.len()
    &&& g.snakes[i].id == g.player_snake_id
    &&& forall|j: int| 0 <= j < i ==> #[trigger] g.snakes[j].id != g.player_snake_id
}

/// The index of the player's snake.
pub open spec fn player_index(g: GameView) -> int {
    choose|i: int| is_player_index(g, i)
}

/// The player's snake.
pub open spec fn player(g: GameView) -> SnakeView {
    g.snakes[player_index(g)]
}

/// Whether the player's head has left the board or lies on the player's
/// own body.
pub open spec fn is_over(g: GameView) -> bool {
    let s = player(g);
    let h = s.body[0].point;
    ||| h.x >= g.width
    ||| h.x < 0
    ||| h.y >= g.height
    ||| h.y < 0
    ||| exists|i: int| 1 <= i < s.body.len() && #[trigger] s.body[i].point == h
}

/// The game after one tick, where `fresh_apple` is where a new apple goes if
/// the player eats the current one. A game that is not running is left as
/// it is. Otherwise the player's snake moves, the apple is replaced if it
/// was eaten, and the game is over if the new state says so.
pub open spec fn advanced(g: GameView, fresh_apple: Point) -> GameView {
    if g.state != GameState::Running {
        g
    } else {
        let s = player(g);
        let g2 = GameView {
            snakes: g.snakes.update(player_index(g), moved(s, g.apple)),
            apple: if next_head(s) == g.apple {
                fresh_apple
            } else {
                g.apple
            },
            ..g
        };
        if is_over(g2) {
            GameView { state: GameState::GameOver, ..g2 }
        } else {
            g2
        }
    }
}

/// Whether every count the byte form writes fits in an `i32`.
pub open spec fn countable(g: GameView) -> bool {
    &&& g.snakes.len() <= i32::MAX
    &&& forall|i: int| 0 <= i < g.snakes.len() ==> #[trigger] g.snakes[i].body.len() <= i32::MAX
}

/// Whether a tick can be played without a fault: a running game needs the
/// player's snake, a next cell in `i32` range, a non-empty board when the
/// apple is eaten (to place a new one), and countable results.
pub open spec fn can_update(g: GameView) -> bool {
    g.state == GameState::Running ==> {
        &&& has_player(g)
        &&& can_move(player(g))
        &&& next_head(player(g)) == g.apple ==> g.width != 0 && g.height != 0
        &&& countable(advanced(g, g.apple))
    }
}

/// `v / 2`, rounded towards zero.
pub open spec fn half(v: i32) -> int {
    if v >= 0 {
        v / 2
    } else {
        -((-v) / 2)
    }
}

/// The three parts of a new snake: in the middle of the board, heading
/// right, tail to the left.
pub open spec fn starting_body(width: i32, height: i32) -> Seq<BodyPart> {
    let cx = half(width);
    let cy = half(height) as i32;
    seq![
        BodyPart { point: Point { x: cx as i32, y: cy }, direction: Direction::Right },
        BodyPart { point: Point { x: (cx - 1) as i32, y: cy }, direction: Direction::Right },
        BodyPart { point: Point { x: (cx - 2) as i32, y: cy }, direction: Direction::Right },
    ]
}

/// A new running game with one snake, the player's, identified by `id`.
pub open spec fn starting_game(width: i32, height: i32, id: Seq<u8>, apple: Point) -> GameView {
    GameView {
        snakes: seq![SnakeView { id: id, next_direction: None, body: starting_body(width, height) }],
        player_snake_id: id,
        apple: apple,
        state: GameState::Running,
        width: width,
        height: height,
    }
}

/// The bytes of a sequence of snakes, one after another, each with its
/// length prefix.
pub open spec fn snakes_bytes(ss: Seq<SnakeView>) -> Seq<u8>
    decreases ss.len(),
{
    if ss.len() == 0 {
        seq![]
    } else {
        snakes_bytes(ss.drop_last()) + snake_bytes(ss.last())
    }
}

/// The bytes of a game: state byte, width, height, apple, the player's
/// identifier (in sent order), the number of snakes, then the snakes.
pub open spec fn game_bytes(g: GameView) -> Seq<u8> {
    seq![state_code(g.state)] + i32_le_bytes(g.width) + i32_le_bytes(g.height) + point_bytes(g.apple)
        + uuid_le_order(g.player_snake_id) + i32_le_bytes(g.snakes.len() as i32) + snakes_bytes(
        g.snakes,
    )
}

/// The `n` snakes stored from `at` on, each as a non-negative length `L`
/// followed by `L` bytes that hold a snake, if all of them are there.
pub open spec fn snakes_at(b: Seq<u8>, at: int, n: nat) -> Option<Seq<SnakeView>>
    decreases n,
{
    if n == 0 {
        Some(seq![])
    } else if at < 0 || at + 4 > b.len() {
        None
    } else {
        let len = read_i32(b, at);
        if len < 0 || at + 4 + len > b.len() {
            None
        } else {
            match parse_snake(b.subrange(at + 4, at + 4 + len)) {
                Some(s) => match snakes_at(b, at + 4 + len, (n - 1) as nat) {
                    Some(rest) => Some(seq![s] + rest),
                    None => None,
                },
                None => None,
            }
        }
    }
}

/// The number of snakes a game's bytes announce; a negative count stands
/// for none.
pub open spec fn announced_snakes(b: Seq<u8>) -> nat {
    let c = read_i32(b, 33);
    if c < 0 {
        0
    } else {
        c as nat
    }
}

/// The game stored in `b`, if `b` holds one: a state byte of at most 1, at
/// least 37 bytes, and all announced snakes present. Bytes after the last
/// snake are ignored.
pub open spec fn parse_game(b: Seq<u8>) -> Option<GameView> {
    if b.len() < 37 || b[0] > 1 {
        None
    } else {
        match snakes_at(b, 37, announced_snakes(b)) {
            Some(ss) => Some(
                GameView {
                    snakes: ss,
                    player_snake_id: uuid_le_order(b.subrange(17, 33)),
                    apple: point_at(b, 9),
                    state: state_of_code(b[0]),
                    width: read_i32(b, 1),
                    height: read_i32(b, 5),
                },
            ),
            None => None,
        }
    }
}

/// Whether the byte form of `g` can be read back: sixteen-byte identifiers,
/// and every count and length it writes within `i32` range.
pub open spec fn round_trippable(g: GameView) -> bool {
    &&& g.player_snake_id.len() == 16
    &&& g.snakes.len() <= i32::MAX
    &&& forall|i: int|
        0 <= i < g.snakes.len() ==> {
            &&& (#[trigger] g.snakes[i]).id.len() == 16
            &&& 21 + 9 * g.snakes[i].body.len() <= i32::MAX
        }
}

/// There is a first snake with the player's identifier whenever there is
/// one with it.
proof fn lemma_first_match(g: GameView, k: int)
    requires
        0 <= k < g.snakes.len(),
        g.snakes[k].id == g.player_snake_id,
    ensures
        exists|i: int| is_player_index(g, i),
    decreases k,
{
    if exists|j: int| 0 <= j < k && #[trigger] g.snakes[j].id == g.player_snake_id {
        let j = choose|j: int| 0 <= j < k && #[trigger] g.snakes[j].id == g.player_snake_id;
        lemma_first_match(g, j);
    } else {
        assert(is_player_index(g, k));
    }
}

/// The player's index is the one first index of a snake with the player's
/// identifier.
pub proof fn lemma_player_index(g: GameView)
    requires
        has_player(g),
    ensures
        is_player_index(g, player_index(g)),
        forall|i: int| is_player_index(g, i) ==> i == player_index(g),
{
    let k = choose|k: int| 0 <= k < g.snakes.len() && #[trigger] g.snakes[k].id == g.player_snake_id;
    lemma_first_match(g, k);
    let p = player_index(g);
    assert forall|i: int| is_player_index(g, i) implies i == p by {
        if i < p {
            assert(g.snakes[i].id != g.player_snake_id);
        } else if p < i {
            assert(g.snakes[p].id != g.player_snake_id);
        }
    }
}

/// Replacing the player's snake by one with the same identifier keeps its
/// index.
proof fn lemma_player_index_kept(g: GameView, s: SnakeView, g2: GameView)
    requires
        has_player(g),
        s.id == g.player_snake_id,
        g2.player_snake_id == g.player_snake_id,
        g2.snakes == g.snakes.update(player_index(g), s),
    ensures
        has_player(g2),
        player_index(g2) == player_index(g),
        player(g2) == s,
{
    lemma_player_index(g);
    let i = player_index(g);
    assert(g2.snakes[i].id == g2.player_snake_id);
    assert(is_player_index(g2, i));
    lemma_player_index(g2);
}

/// The bytes of a non-empty sequence of snakes start with the bytes of the
/// first.
proof fn lemma_snakes_bytes_front(ss: Seq<SnakeView>)
    requires
        ss.len() > 0,
    ensures
        snakes_bytes(ss) == snake_bytes(ss[0]) + snakes_bytes(ss.drop_first()),
    decreases ss.len(),
{
    if ss.len() == 1 {
        assert(ss.drop_last() =~= seq![]);
        assert(ss.drop_first() =~= seq![]);
        assert(snakes_bytes(ss.drop_last()) == Seq::<u8>::empty());
        assert(snakes_bytes(ss.drop_first()) == Seq::<u8>::empty());
        assert(snakes_bytes(ss) =~= snake_bytes(ss[0]));
    } else {
        let dl = ss.drop_last();
        lemma_snakes_bytes_front(dl);
        assert(ss.drop_first().drop_last() =~= dl.drop_first());
        assert(ss.drop_first().last() == ss.last());
        assert(snakes_bytes(ss) =~= snake_bytes(ss[0]) + snakes_bytes(ss.drop_first()));
    }
}

/// The bytes of a snake are its length prefix then its payload, with the
/// payload `21 + 9 n` bytes long.
proof fn lemma_snake_bytes_shape(s: SnakeView)
    requires
        s.id.len() == 16,
    ensures
        snake_payload(s).len() == 21 + 9 * s.body.len(),
        snake_bytes(s).len() == 25 + 9 * s.body.len(),
{
    lemma_snake_payload_len(s);
}

/// Snakes written between any two byte strings are read back unchanged.
proof fn lemma_snakes_roundtrip(pre: Seq<u8>, ss: Seq<SnakeView>, post: Seq<u8>)
    requires
        forall|i: int|
            0 <= i < ss.len() ==> {
                &&& (#[trigger] ss[i]).id.len() == 16
                &&& 21 + 9 * ss[i].body.len() <= i32::MAX
            },
    ensures
        snakes_at(pre + snakes_bytes(ss) + post, pre.len() as int, ss.len()) == Some(ss),
    decreases ss.len(),
{
    if ss.len() > 0 {
        let s = ss[0];
        let rest = ss.drop_first();
        let b = pre + snakes_bytes(ss) + post;
        lemma_snakes_bytes_front(ss);
        lemma_snake_bytes_shape(s);
        let payload = snake_payload(s);
        let len = payload.len() as i32;
        assert(b =~= pre + i32_le_bytes(len) + (payload + snakes_bytes(rest) + post));
        lemma_read_i32_at(pre, len, payload + snakes_bytes(rest) + post);
        let at = pre.len() as int;
        assert(b.subrange(at + 4, at + 4 + len) =~= payload);
        lemma_snake_payload_roundtrip(s);
        assert forall|i: int|
            0 <= i < rest.len() implies {
                &&& (#[trigger] rest[i]).id.len() == 16
                &&& 21 + 9 * rest[i].body.len() <= i32::MAX
            } by {
            assert(rest[i] == ss[i + 1]);
        }
        assert(b =~= (pre + snake_bytes(s)) + snakes_bytes(rest) + post);
        lemma_snakes_roundtrip(pre + snake_bytes(s), rest, post);
        assert(seq![s] + rest =~= ss);
    }
}

/// Reading back the bytes of a game gives the game: `parse_game` undoes
/// `game_bytes` whenever every count and length written fits in an `i32`.
pub proof fn lemma_game_roundtrip(g: GameView)
    requires
        round_trippable(g),
    ensures
        parse_game(game_bytes(g)) == Some(g),
{
    let b = game_bytes(g);
    let s0 = seq![state_code(g.state)];
    let p1 = s0 + i32_le_bytes(g.width);
    let p2 = p1 + i32_le_bytes(g.height);
    let p3 = p2 + point_bytes(g.apple);
    let p4 = p3 + uuid_le_order(g.player_snake_id);
    let p5 = p4 + i32_le_bytes(g.snakes.len() as i32);
    assert(b == p5 + snakes_bytes(g.snakes));
    lemma_starts_with_add(p5, snakes_bytes(g.snakes));
    lemma_starts_with_add(p4, i32_le_bytes(g.snakes.len() as i32));
    lemma_starts_with_add(p3, uuid_le_order(g.player_snake_id));
    lemma_starts_with_add(p2, point_bytes(g.apple));
    lemma_starts_with_add(p1, i32_le_bytes(g.height));
    lemma_starts_with_trans(b, p5, p4);
    lemma_starts_with_trans(b, p4, p3);
    lemma_starts_with_trans(b, p3, p2);
    lemma_starts_with_trans(b, p2, p1);
    assert(b[0] == state_code(g.state));
    // width
    assert(p1 =~= s0 + i32_le_bytes(g.width) + seq![]);
    lemma_read_i32_at(s0, g.width, seq![]);
    lemma_read_i32_prefix(b, p1, 1);
    // height
    assert(p2 =~= p1 + i32_le_bytes(g.height) + seq![]);
    lemma_read_i32_at(p1, g.height, seq![]);
    lemma_read_i32_prefix(b, p2, 5);
    // apple
    assert(p3 =~= p2 + point_bytes(g.apple) + seq![]);
    lemma_point_roundtrip(p2, g.apple, seq![]);
    lemma_read_i32_prefix(b, p3, 9);
    lemma_read_i32_prefix(b, p3, 13);
    // player identifier
    assert(b.subrange(17, 33) =~= uuid_le_order(g.player_snake_id)) by {
        assert forall|i: int| 0 <= i < 16 implies b.subrange(17, 33)[i] == uuid_le_order(
            g.player_snake_id,
        )[i] by {
            assert(b[17 + i] == p4[17 + i]);
        }
    }
    lemma_le_order_involution(g.player_snake_id);
    // number of snakes
    assert(p5 =~= p4 + i32_le_bytes(g.snakes.len() as i32) + seq![]);
    lemma_read_i32_at(p4, g.snakes.len() as i32, seq![]);
    lemma_read_i32_prefix(b, p5, 33);
    assert(announced_snakes(b) == g.snakes.len());
    // snakes
    assert(b =~= p5 + snakes_bytes(g.snakes) + seq![]);
    lemma_snakes_roundtrip(p5, g.snakes, seq![]);
}

/// The game is over exactly when the player's head lies outside
/// `[0, width) x [0, height)` or some other part of the player's snake has
/// both the head's column and the head's row. A snake on the board whose
/// other parts all lie elsewhere is not over.
pub proof fn lemma_game_over_iff(g: GameView)
    requires
        has_player(g),
        player(g).body.len() > 0,
    ensures
        ({
            let s = player(g);
            let h = s.body[0].point;
            is_over(g) <==> (!(0 <= h.x < g.width && 0 <= h.y < g.height) || exists|i: int|
                1 <= i < s.body.len() && (#[trigger] s.body[i]).point.x == h.x && s.body[i].point.y
                    == h.y)
        }),
{
    let s = player(g);
    let h = s.body[0].point;
    if exists|i: int|
        1 <= i < s.body.len() && (#[trigger] s.body[i]).point.x == h.x && s.body[i].point.y == h.y {
        let i = choose|i: int|
            1 <= i < s.body.len() && (#[trigger] s.body[i]).point.x == h.x && s.body[i].point.y
                == h.y;
        assert(s.body[i].point == h);
    }
}

/// A game written by `Game::to_byte_array` is read back by
/// `Game::from_byte_array` as the same game, and writing that game again
/// gives the same bytes, whenever the number of snakes and every snake's
/// payload length (21 bytes plus 9 per part) fit in an `i32`.
pub proof fn lemma_game_bytes_read_back(g: Game)
    requires
        g@.snakes.len() <= i32::MAX,
        forall|i: int|
            0 <= i < g@.snakes.len() ==> 21 + 9 * (#[trigger] g@.snakes[i]).body.len() <= i32::MAX,
    ensures
        countable(g@),
        parse_game(game_bytes(g@)) == Some(g@),
        game_bytes(parse_game(game_bytes(g@)).unwrap()) == game_bytes(g@),
{
    assert forall|i: int| 0 <= i < g@.snakes.len() implies (#[trigger] g@.snakes[i]).id.len() == 16 by {
        assert(g@.snakes[i] == g.snakes@[i]@);
    }
    lemma_game_roundtrip(g@);
}

/// A non-zero side stays non-zero as a `u64`, and a positive one keeps its
/// value.
proof fn lemma_side_as_u64(v: i32)
    requires
        v != 0,
    ensures
        v as u64 != 0,
        v > 0 ==> v as u64 == v,
{
    assert(v != 0 ==> v as u64 != 0) by (bit_vector);
}

/// Calls `rand::rng()` and then `RngExt::random_range(..end)`. The value is
/// random; the rand crate's source asserts that the range is not empty
/// (hence `end > 0`) and samples from `0..end`, which is all the contract
/// states.
#[verifier::external_body]
fn random_below(end: u64) -> (r: u64)
    requires
        end > 0,
    ensures
        r < end,
{
    rand::rng().random_range(..end)
}

impl GameState {
    /// The game state a byte stands for; the byte must be 0 or 1.
    pub fn from_byte(state: u8) -> (s: GameState)
        requires
            state <= 1,
        ensures
            s == state_of_code(state),
    {
        if state == 0 {
            GameState::Running
        } else {
            GameState::GameOver
        }
    }

    /// The byte of this state.
    pub fn code(self) -> (b: u8)
        ensures
            b == state_code(self),
    {
        match self {
            GameState::Running => 0,
            GameState::GameOver => 1,
        }
    }
}

impl Game {
    /// A new running game on a `width` by `height` board: one snake, the
    /// player's, with a fresh random identifier, in the middle heading
    /// right, and an apple at a random cell. Both sides must be non-zero.
    pub fn new_game(width: i32, height: i32) -> (g: Game)
        requires
            width != 0,
            height != 0,
        ensures
            g@ == starting_game(width, height, g@.player_snake_id, g@.apple),
            g@.player_snake_id.len() == 16,
            g@.player_snake_id[6] / 16 == 4,
            g@.player_snake_id[8] / 64 == 2,
            width > 0 ==> 0 <= g.apple.x < width,
            height > 0 ==> 0 <= g.apple.y < height,
    {
        let id = SnakeId::random();
        let mut game = Game::start(width, height, id, Point { x: 0, y: 0 });
        game.apple = game.find_empty_position();
        assert(game@.snakes =~= starting_game(width, height, id@, game.apple).snakes);
        game
    }

    /// A new running game with one snake, the player's, identified by `id`,
    /// in the middle of the board heading right, and the apple at `apple`.
    pub fn start(width: i32, height: i32, id: SnakeId, apple: Point) -> (g: Game)
        ensures
            g@ == starting_game(width, height, id@, apple),
    {
        let cx = width / 2;
        let cy = height / 2;
        assert(cx == half(width));
        assert(cy == half(height));
        let mut body: VecDeque<BodyPart> = VecDeque::new();
        body.push_back(BodyPart { point: Point { x: cx, y: cy }, direction: Direction::Right });
        body.push_back(BodyPart { point: Point { x: cx - 1, y: cy }, direction: Direction::Right });
        body.push_back(BodyPart { point: Point { x: cx - 2, y: cy }, direction: Direction::Right });
        assert(body@ =~= starting_body(width, height));
        let snake = Snake { id, next_direction: None, body };
        let mut snakes: Vec<Snake> = Vec::new();
        snakes.push(snake);
        let g = Game {
            snakes,
            player_snake_id: id,
            apple,
            state: GameState::Running,
            width,
            height,
        };
        assert(g@.snakes =~= starting_game(width, height, id@, apple).snakes);
        g
    }

    /// The index of the player's snake: the first snake with the player's
    /// identifier; `None` when no snake has it.
    pub fn find_player(&self) -> (found: Option<usize>)
        ensures
            match found {
                Some(i) => has_player(self@) && i == player_index(self@) && i < self.snakes@.len(),
                None => !has_player(self@),
            },
    {
        let n = self.snakes.len();
        let mut i: usize = 0;
        while i < n
            invariant
                i <= n,
                n == self@.snakes.len(),
                forall|j: int| 0 <= j < i ==> #[trigger] self@.snakes[j].id != self@.player_snake_id,
            decreases n - i,
        {
            assert(self@.snakes[i as int] == self.snakes@[i as int]@);
            if self.snakes[i].id.same_as(&self.player_snake_id) {
                proof {
                    assert(is_player_index(self@, i as int));
                    lemma_player_index(self@);
                }
                return Some(i);
            }
            i = i + 1;
        }
        None
    }

    /// The index of the player's snake.
    fn player_position(&self) -> (i: usize)
        requires
            has_player(self@),
        ensures
            i == player_index(self@),
            is_player_index(self@, i as int),
            i < self.snakes@.len(),
    {
        proof {
            lemma_player_index(self@);
        }
        match self.find_player() {
            Some(i) => i,
            None => {
                assert(false);
                0
            },
        }
    }

    /// Whether `Game::update` can be called on this game (see
    /// `can_update`).
    pub fn is_updatable(&self) -> (r: bool)
        ensures
            r == can_update(self@),
    {
        match self.state {
            GameState::GameOver => {
                return true;
            },
            GameState::Running => {},
        }
        let pi = match self.find_player() {
            Some(pi) => pi,
            None => {
                return false;
            },
        };
        assert(self.snakes@[pi as int]@ == player(self@));
        if !self.snakes[pi].can_move_now() {
            return false;
        }
        let eats = self.snakes[pi].next_head_position() == self.apple;
        if eats && (self.width == 0 || self.height == 0) {
            return false;
        }
        let n = self.snakes.len();
        if n > 2147483647 {
            return false;
        }
        let ghost g = self@;
        let ghost after = advanced(g, g.apple);
        proof {
            lemma_move_shape(player(g), g.apple);
            assert(after.snakes == g.snakes.update(pi as int, moved(player(g), g.apple)));
        }
        let mut k: usize = 0;
        while k < n
            invariant
                k <= n,
                n == g.snakes.len(),
                g == self@,
                after == advanced(g, g.apple),
                g.state == GameState::Running,
                has_player(g),
                can_move(player(g)),
                next_head(player(g)) == g.apple ==> g.width != 0 && g.height != 0,
                pi == player_index(g),
                pi < n,
                eats == (next_head(player(g)) == g.apple),
                after.snakes == g.snakes.update(pi as int, moved(player(g), g.apple)),
                moved(player(g), g.apple).body.len() == player(g).body.len() + if eats {
                    1int
                } else {
                    0int
                },
                player(g) == g.snakes[pi as int],
                forall|j: int| 0 <= j < k ==> #[trigger] after.snakes[j].body.len() <= i32::MAX,
            decreases n - k,
        {
            assert(self@.snakes[k as int] == self.snakes@[k as int]@);
            let len = self.snakes[k].body.len();
            let too_long = if k == pi && eats {
                len >= 2147483647
            } else {
                len > 2147483647
            };
            if too_long {
                assert(after.snakes[k as int].body.len() > i32::MAX);
                return false;
            }
            k = k + 1;
        }
        assert(countable(after));
        true
    }

    /// The player's snake.
    pub fn snake(&self) -> (s: &Snake)
        requires
            has_player(self@),
        ensures
            s@ == player(self@),
    {
        let i = self.player_position();
        &self.snakes[i]
    }

    /// The player's snake, to be changed in place.
    pub fn snake_mut(&mut self) -> (s: &mut Snake)
        requires
            has_player(old(self)@),
        ensures
            (*s)@ == player(old(self)@),
            final(self)@ =~= (GameView {
                snakes: old(self)@.snakes.update(player_index(old(self)@), (*final(s))@),
                ..old(self)@
            }),
    {
        let i = self.player_position();
        &mut self.snakes[i]
    }

    /// A random cell of the board; both sides must be non-zero. For a
    /// positive side the coordinate lies on the board; a negative side
    /// bounds nothing.
    pub fn find_empty_position(&self) -> (p: Point)
        requires
            self.width != 0,
            self.height != 0,
        ensures
            self.width > 0 ==> 0 <= p.x < self.width,
            self.height > 0 ==> 0 <= p.y < self.height,
    {
        let w = self.width;
        let h = self.height;
        proof {
            lemma_side_as_u64(w);
            lemma_side_as_u64(h);
        }
        let random_x = random_below(w as u64);
        let random_y = random_below(h as u64);
        Point { x: random_x as i32, y: random_y as i32 }
    }

    /// Whether the player's head has left the board or lies on the player's
    /// own body.
    pub fn is_game_over(&self) -> (over: bool)
        requires
            has_player(self@),
            player(self@).body.len() > 0,
        ensures
            over == is_over(self@),
    {
        let snake = self.snake();
        let head = *snake.head_position();
        if head.x >= self.width || head.x < 0 || head.y >= self.height || head.y < 0 {
            return true;
        }
        let n = snake.body.len();
        let mut i: usize = 1;
        while i < n
            invariant
                1 <= i <= n,
                n == snake@.body.len(),
                snake@ == player(self@),
                head == snake@.body[0].point,
                forall|j: int| 1 <= j < i ==> #[trigger] snake@.body[j].point != head,
            decreases n - i,
        {
            if snake.body[i].point == head {
                assert(snake@.body[i as int].point == head);
                return true;
            }
            i = i + 1;
        }
        false
    }

    /// One tick with `fresh_apple` as the place of a new apple if the
    /// current one is eaten (see `advanced`).
    pub fn advance(&mut self, fresh_apple: Point)
        requires
            old(self)@.state == GameState::Running ==> has_player(old(self)@) && can_move(
                player(old(self)@),
            ),
        ensures
            final(self)@ == advanced(old(self)@, fresh_apple),
    {
        match self.state {
            GameState::GameOver => {
                return ;
            },
            GameState::Running => {},
        }
        let ghost g = self@;
        let i = self.player_position();
        let apple = self.apple;
        proof {
            assert(self.snakes@[i as int]@ == player(g));
        }
        let eaten = self.snakes[i].move_forward(&apple);
        if eaten {
            self.apple = fresh_apple;
        }
        proof {
            let s2 = moved(player(g), apple);
            assert(self@.snakes =~= g.snakes.update(player_index(g), s2));
            lemma_player_index_kept(g, s2, self@);
        }
        if self.is_game_over() {
            self.state = GameState::GameOver;
        }
    }

    /// One tick of play. A game that is not running is left as it is and
    /// nothing is sent. Otherwise the player's snake moves; if it eats the
    /// apple, a new apple goes to a random cell; the game ends if the head
    /// left the board or hit the body. The result asks to send the new game's
    /// bytes to the configured server.
    pub fn update(&mut self, config: &Config) -> (out: Option<Outbound>)
        requires
            can_update(old(self)@),
        ensures
            old(self)@.state != GameState::Running ==> out is None && final(self)@ == old(self)@,
            old(self)@.state == GameState::Running ==> {
                let eaten = next_head(player(old(self)@)) == old(self)@.apple;
                &&& final(self)@ == advanced(old(self)@, final(self)@.apple)
                &&& !eaten ==> final(self)@.apple == old(self)@.apple
                &&& eaten && old(self)@.width > 0 ==> 0 <= final(self)@.apple.x < old(self)@.width
                &&& eaten && old(self)@.height > 0 ==> 0 <= final(self)@.apple.y
                    < old(self)@.height
                &&& out matches Some(o) && o.server_addr@ == config.server_addr@ && o.payload@
                    == game_bytes(final(self)@)
            },
    {
        match self.state {
            GameState::GameOver => {
                return None;
            },
            GameState::Running => {},
        }
        let i = self.player_position();
        assert(self.snakes@[i as int]@ == player(self@));
        let next = self.snakes[i].next_head_position();
        let fresh = if next == self.apple {
            self.find_empty_position()
        } else {
            self.apple
        };
        self.advance(fresh);
        let payload = self.to_byte_array();
        Some(Outbound { server_addr: config.server_addr.clone(), payload })
    }

    /// The bytes of this game (see `game_bytes`). The number of snakes and
    /// the number of parts of each must fit in an `i32`.
    pub fn to_byte_array(&self) -> (bytes: Vec<u8>)
        requires
            countable(self@),
        ensures
            bytes@ == game_bytes(self@),
    {
        let mut bytes: Vec<u8> = Vec::new();
        bytes.push(self.state.code());
        push_i32_le(&mut bytes, self.width);
        push_i32_le(&mut bytes, self.height);
        self.apple.write_to(&mut bytes);
        self.player_snake_id.write_le_to(&mut bytes);
        let count = self.snakes.len();
        push_i32_le(&mut bytes, count as i32);
        let ghost head = bytes@;
        let mut i: usize = 0;
        while i < count
            invariant
                i <= count,
                count == self@.snakes.len(),
                countable(self@),
                bytes@ == head + snakes_bytes(self@.snakes.take(i as int)),
            decreases count - i,
        {
            assert(self@.snakes[i as int] == self.snakes@[i as int]@);
            let mut sb = self.snakes[i].to_byte_array();
            bytes.append(&mut sb);
            assert(self@.snakes.take(i + 1).drop_last() =~= self@.snakes.take(i as int));
            i = i + 1;
            assert(bytes@ =~= head + snakes_bytes(self@.snakes.take(i as int)));
        }
        assert(self@.snakes.take(count as int) =~= self@.snakes);
        assert(bytes@ =~= game_bytes(self@));
        bytes
    }

    /// Reads a game from its bytes (see `parse_game`). The bytes must hold
    /// a game.
    pub fn from_byte_array(input: Vec<u8>) -> (g: Game)
        requires
            parse_game(input@) is Some,
        ensures
            g@ == parse_game(input@).unwrap(),
    {
        match Game::parse(input.as_slice()) {
            Some(g) => g,
            None => {
                assert(false);
                Game::start(1, 1, SnakeId { bytes: [0u8; 16] }, Point { x: 0, y: 0 })
            },
        }
    }

    /// Reads a game from its bytes; `None` exactly when the bytes hold no
    /// game.
    pub fn parse(b: &[u8]) -> (g: Option<Game>)
        ensures
            match g {
                Some(g) => parse_game(b@) == Some(g@),
                None => parse_game(b@) is None,
            },
    {
        if b.len() < 37 || b[0] > 1 {
            return None;
        }
        let state = GameState::from_byte(b[0]);
        let width = read_i32_le(b, 1);
        let height = read_i32_le(b, 5);
        let apple = Point::read_at(b, 9);
        let player_snake_id = SnakeId::read_le_at(b, 17);
        let count = read_i32_le(b, 33);
        let n: usize = if count < 0 { 0 } else { count as usize };
        assert(n == announced_snakes(b@));
        let mut snakes: Vec<Snake> = Vec::new();
        let mut i: usize = 0;
        let mut at: usize = 37;
        while i < n
            invariant
                i <= n,
                n == announced_snakes(b@),
                at <= b.len(),
                snakes_at(b@, 37, n as nat) == match snakes_at(b@, at as int, (n - i) as nat) {
                    Some(rest) => Some(snakes@.map_values(|s: Snake| s@) + rest),
                    None => None,
                },
            decreases n - i,
        {
            if b.len() - at < 4 {
                return None;
            }
            let len = read_i32_le(b, at);
            if len < 0 || b.len() - at - 4 < len as usize {
                return None;
            }
            let start = at + 4;
            let end = start + len as usize;
            let piece = vstd::slice::slice_subrange(b, start, end);
            match Snake::parse(piece) {
                Some(s) => {
                    let ghost before = snakes@.map_values(|s: Snake| s@);
                    snakes.push(s);
                    assert(snakes@.map_values(|s: Snake| s@) =~= before.push(s@));
                    proof {
                        let rest_opt = snakes_at(b@, end as int, (n - i - 1) as nat);
                        match rest_opt {
                            Some(rest) => {
                                assert(before + (seq![s@] + rest) =~= before.push(s@) + rest);
                            },
                            None => {},
                        }
                    }
                    at = end;
                    i = i + 1;
                },
                None => {
                    return None;
                },
            }
        }
        assert(snakes@.map_values(|s: Snake| s@) + seq![] =~= snakes@.map_values(|s: Snake| s@));
        Some(Game { snakes, player_snake_id, apple, state, width, height })
    }
}

} // verus!
