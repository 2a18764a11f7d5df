//! What a frame of the game shows and where: the border of the board, the
//! player's snake and the apple, as cells of the terminal. Printing them is
//! left to the caller.
use vstd::prelude::*;
use crate::point::{Direction, Point, opposite};
use crate::snake::{Snake, SnakeView, can_move, moved};
use crate::game::{Game, GameView, half, has_player, player};

verus! {

/// A character that a frame draws.
#[derive(Debug, PartialEq, Eq, Structural, Clone, Copy)]
pub enum Glyph {
    /// `@`
    Apple,
    /// `─`
    Horizontal,
    /// `│`
    Vertical,
    /// `┌`
    TopLeft,
    /// `┐`
    TopRight,
    /// `└`
    BottomLeft,
    /// `┘`
    BottomRight,
    /// `⬆`
    HeadUp,
    /// `➡`
    HeadRight,
    /// `⬇`
    HeadDown,
    /// `⬅`
    HeadLeft,
}

/// The colour a glyph is drawn in; `Plain` keeps the terminal's colour.
#[derive(Debug, PartialEq, Eq, Structural, Clone, Copy)]
pub enum Color {
    Plain,
    Red,
    Green,
}

/// A glyph at column `x`, row `y` of the terminal (both counted from 0).
#[derive(Debug, PartialEq, Eq, Structural, Clone, Copy)]
pub struct Cell {
    pub x: i32,
    pub y: i32,
    pub glyph: Glyph,
    pub color: Color,
}

/// A cell at integer coordinates.
pub open spec fn cell_at(x: int, y: int, glyph: Glyph, color: Color) -> Cell {
    Cell { x: x as i32, y: y as i32, glyph: glyph, color: color }
}

/// The four corners of the frame around a `w` by `h` board, in drawing
/// order: bottom left, top left, top right, bottom right.
pub open spec fn border_corners(w: i32, h: i32) -> Seq<Cell> {
    seq![
        cell_at(0, h + 1, Glyph::BottomLeft, Color::Plain),
        cell_at(0, 0, Glyph::TopLeft, Color::Plain),
        cell_at(w + 1, 0, Glyph::TopRight, Color::Plain),
        cell_at(w + 1, h + 1, Glyph::BottomRight, Color::Plain),
    ]
}

/// The `k`-th cell of the top and bottom edges: for each column of the
/// board, the top cell then the bottom cell.
pub open spec fn edge_cell(h: i32, k: int) -> Cell {
    if k % 2 == 0 {
        cell_at(k / 2 + 1, 0, Glyph::Horizontal, Color::Plain)
    } else {
        cell_at(k / 2 + 1, h + 1, Glyph::Horizontal, Color::Plain)
    }
}

/// The `k`-th cell of the left and right sides: for each row of the board,
/// the left cell then the right cell.
pub open spec fn side_cell(w: i32, k: int) -> Cell {
    if k % 2 == 0 {
        cell_at(0, k / 2 + 1, Glyph::Vertical, Color::Plain)
    } else {
        cell_at(w + 1, k / 2 + 1, Glyph::Vertical, Color::Plain)
    }
}

/// A side of the board as a count (a negative side has no cells).
pub open spec fn extent(v: i32) -> nat {
    if v < 0 {
        0
    } else {
        v as nat
    }
}

/// The frame around a `w` by `h` board, in drawing order.
pub open spec fn border_spec(w: i32, h: i32) -> Seq<Cell> {
    border_corners(w, h) + Seq::new(2 * extent(w), |k: int| edge_cell(h, k)) + Seq::new(
        2 * extent(h),
        |k: int| side_cell(w, k),
    )
}

/// The glyph of a head with heading `d`.
pub open spec fn head_glyph(d: Direction) -> Glyph {
    match d {
        Direction::Up => Glyph::HeadUp,
        Direction::Right => Glyph::HeadRight,
        Direction::Down => Glyph::HeadDown,
        Direction::Left => Glyph::HeadLeft,
    }
}

/// The glyph of a body segment entered with heading `cur` whose neighbour
/// towards the head was entered with heading `next`: a straight piece when
/// they agree, else the corner that joins them. Opposite headings have no
/// glyph (`Vertical` is returned).
pub open spec fn segment_glyph(cur: Direction, next: Direction) -> Glyph {
    match (cur, next) {
        (Direction::Up, Direction::Right) => Glyph::TopLeft,
        (Direction::Up, Direction::Left) => Glyph::TopRight,
        (Direction::Right, Direction::Up) => Glyph::BottomRight,
        (Direction::Right, Direction::Right) => Glyph::Horizontal,
        (Direction::Right, Direction::Down) => Glyph::TopRight,
        (Direction::Down, Direction::Right) => Glyph::BottomLeft,
        (Direction::Down, Direction::Left) => Glyph::BottomRight,
        (Direction::Left, Direction::Up) => Glyph::BottomLeft,
        (Direction::Left, Direction::Down) => Glyph::TopLeft,
        (Direction::Left, Direction::Left) => Glyph::Horizontal,
        _ => Glyph::Vertical,
    }
}

/// The cell of part `i` of a snake: the head glyph for the head, a segment
/// glyph for the rest, in red, one column and one row inside the frame.
pub open spec fn snake_cell(s: SnakeView, i: int) -> Cell {
    let p = s.body[i].point;
    cell_at(
        p.x + 1,
        p.y + 1,
        if i == 0 {
            head_glyph(s.body[0].direction)
        } else {
            segment_glyph(s.body[i].direction, s.body[i - 1].direction)
        },
        Color::Red,
    )
}

/// The cells of a snake, head first.
pub open spec fn snake_spec(s: SnakeView) -> Seq<Cell> {
    Seq::new(s.body.len(), |i: int| snake_cell(s, i))
}

/// Whether a snake can be drawn: it has a head, each part lies left of and
/// above the last column and row, and no part is entered against the
/// heading of its neighbour towards the head.
pub open spec fn drawable(s: SnakeView) -> bool {
    &&& s.body.len() > 0
    &&& forall|i: int|
        0 <= i < s.body.len() ==> (#[trigger] s.body[i]).point.x < i32::MAX && s.body[i].point.y
            < i32::MAX
    &&& forall|i: int|
        1 <= i < s.body.len() ==> !opposite(#[trigger] s.body[i].direction, s.body[i - 1].direction)
}

/// The cell of the apple, in green.
pub open spec fn apple_spec(a: Point) -> Cell {
    cell_at(a.x + 1, a.y + 1, Glyph::Apple, Color::Green)
}

/// The cells of a frame of `g`: the border, the player's snake, the apple.
pub open spec fn frame_spec(g: GameView) -> Seq<Cell> {
    border_spec(g.width, g.height) + snake_spec(player(g)) + seq![apple_spec(g.apple)]
}

/// Whether a frame of `g` can be drawn.
pub open spec fn frame_drawable(g: GameView) -> bool {
    &&& g.width < i32::MAX
    &&& g.height < i32::MAX
    &&& g.apple.x < i32::MAX
    &&& g.apple.y < i32::MAX
    &&& has_player(g)
    &&& drawable(player(g))
}

/// How far the arrow of a head glyph points along x: right +1, left -1,
/// 0 for every other glyph.
pub open spec fn arrow_x(g: Glyph) -> int {
    if g == Glyph::HeadRight {
        1
    } else if g == Glyph::HeadLeft {
        -1
    } else {
        0
    }
}

/// How far the arrow of a head glyph points along y: down (`⬇`) +1, up
/// (`⬆`) -1, 0 for every other glyph.
pub open spec fn arrow_y(g: Glyph) -> int {
    if g == Glyph::HeadDown {
        1
    } else if g == Glyph::HeadUp {
        -1
    } else {
        0
    }
}

/// Different headings get different head glyphs, and after a move the head
/// is drawn with the arrow that points from the old head to the new one.
pub proof fn lemma_head_arrow_shows_last_step(s: SnakeView, apple: Point, a: Direction, b: Direction)
    requires
        can_move(s),
    ensures
        head_glyph(a) == head_glyph(b) ==> a == b,
        ({
            let m = moved(s, apple);
            let g = snake_cell(m, 0).glyph;
            &&& m.body[0].point.x == s.body[0].point.x + arrow_x(g)
            &&& m.body[0].point.y == s.body[0].point.y + arrow_y(g)
        }),
{
}

/// The frame surrounds the board: for every row `1 ..= height` there is a
/// vertical piece in column 0 and in column `width + 1`; for every column
/// `1 ..= width` a horizontal piece in row 0 and in row `height + 1`; and the
/// four corners are there.
pub proof fn lemma_border_surrounds_board(w: i32, h: i32)
    requires
        w < i32::MAX,
        h < i32::MAX,
    ensures
        forall|c: Cell|
            c.glyph == Glyph::Vertical && c.color == Color::Plain && (c.x == 0 || c.x == w + 1) && 1
                <= c.y <= h ==> #[trigger] border_spec(w, h).contains(c),
        forall|c: Cell|
            c.glyph == Glyph::Horizontal && c.color == Color::Plain && (c.y == 0 || c.y == h + 1) && 1
                <= c.x <= w ==> #[trigger] border_spec(w, h).contains(c),
        border_spec(w, h).contains(Cell { x: 0, y: 0, glyph: Glyph::TopLeft, color: Color::Plain }),
        border_spec(w, h).contains(
            Cell { x: (w + 1) as i32, y: 0, glyph: Glyph::TopRight, color: Color::Plain },
        ),
        border_spec(w, h).contains(
            Cell { x: 0, y: (h + 1) as i32, glyph: Glyph::BottomLeft, color: Color::Plain },
        ),
        border_spec(w, h).contains(
            Cell { x: (w + 1) as i32, y: (h + 1) as i32, glyph: Glyph::BottomRight, color: Color::Plain },
        ),
{
    let b = border_spec(w, h);
    let ew = 2 * extent(w);
    assert(b[0] == border_corners(w, h)[0]);
    assert(b[1] == border_corners(w, h)[1]);
    assert(b[2] == border_corners(w, h)[2]);
    assert(b[3] == border_corners(w, h)[3]);
    assert forall|c: Cell|
        c.glyph == Glyph::Vertical && c.color == Color::Plain && (c.x == 0 || c.x == w + 1) && 1
            <= c.y <= h implies #[trigger] b.contains(c) by {
        let k = 4 + ew + 2 * (c.y - 1);
        if c.x == 0 {
            assert(b[k] == side_cell(w, 2 * (c.y - 1)));
            assert(b[k] == c);
        } else {
            assert(b[k + 1] == side_cell(w, 2 * (c.y - 1) + 1));
            assert(b[k + 1] == c);
        }
    }
    assert forall|c: Cell|
        c.glyph == Glyph::Horizontal && c.color == Color::Plain && (c.y == 0 || c.y == h + 1) && 1
            <= c.x <= w implies #[trigger] b.contains(c) by {
        let k = 4 + 2 * (c.x - 1);
        if c.y == 0 {
            assert(b[k] == edge_cell(h, 2 * (c.x - 1)));
            assert(b[k] == c);
        } else {
            assert(b[k + 1] == edge_cell(h, 2 * (c.x - 1) + 1));
            assert(b[k + 1] == c);
        }
    }
}

/// The cells of the frame around a `width` by `height` board: the four
/// corners, then the top and bottom edge column by column, then the left and
/// right side row by row.
pub fn border_cells(width: i32, height: i32) -> (cells: Vec<Cell>)
    requires
        width < i32::MAX,
        height < i32::MAX,
    ensures
        cells@ == border_spec(width, height),
{
    let mut cells: Vec<Cell> = Vec::new();
    cells.push(Cell { x: 0, y: height + 1, glyph: Glyph::BottomLeft, color: Color::Plain });
    cells.push(Cell { x: 0, y: 0, glyph: Glyph::TopLeft, color: Color::Plain });
    cells.push(Cell { x: width + 1, y: 0, glyph: Glyph::TopRight, color: Color::Plain });
    cells.push(Cell { x: width + 1, y: height + 1, glyph: Glyph::BottomRight, color: Color::Plain });
    assert(cells@ =~= border_corners(width, height));
    let mut x: i32 = 0;
    while x < width
        invariant
            0 <= x,
            x <= extent(width),
            height < i32::MAX,
            cells@ == border_corners(width, height) + Seq::new(
                2 * x as nat,
                |k: int| edge_cell(height, k),
            ),
        decreases width - x,
    {
        cells.push(Cell { x: x + 1, y: 0, glyph: Glyph::Horizontal, color: Color::Plain });
        cells.push(Cell { x: x + 1, y: height + 1, glyph: Glyph::Horizontal, color: Color::Plain });
        x = x + 1;
        assert(cells@ =~= border_corners(width, height) + Seq::new(
            2 * x as nat,
            |k: int| edge_cell(height, k),
        ));
    }
    assert(x == extent(width));
    let ghost top = cells@;
    let mut y: i32 = 0;
    while y < height
        invariant
            0 <= y,
            y <= extent(height),
            width < i32::MAX,
            cells@ == top + Seq::new(2 * y as nat, |k: int| side_cell(width, k)),
        decreases height - y,
    {
        cells.push(Cell { x: 0, y: y + 1, glyph: Glyph::Vertical, color: Color::Plain });
        cells.push(Cell { x: width + 1, y: y + 1, glyph: Glyph::Vertical, color: Color::Plain });
        y = y + 1;
        assert(cells@ =~= top + Seq::new(2 * y as nat, |k: int| side_cell(width, k)));
    }
    assert(y == extent(height));
    cells
}

impl Direction {
    /// The glyph of a head with this heading.
    pub fn head_glyph(self) -> (g: Glyph)
        ensures
            g == head_glyph(self),
    {
        match self {
            Direction::Up => Glyph::HeadUp,
            Direction::Right => Glyph::HeadRight,
            Direction::Down => Glyph::HeadDown,
            Direction::Left => Glyph::HeadLeft,
        }
    }
}

/// The glyph of a segment entered with heading `cur` next to one entered
/// with heading `next` (towards the head); they must not be opposite.
pub fn segment_glyph_of(cur: Direction, next: Direction) -> (g: Glyph)
    requires
        !opposite(cur, next),
    ensures
        g == segment_glyph(cur, next),
{
    match (cur, next) {
        (Direction::Up, Direction::Up) => Glyph::Vertical,
        (Direction::Up, Direction::Right) => Glyph::TopLeft,
        (Direction::Up, Direction::Left) => Glyph::TopRight,
        (Direction::Right, Direction::Up) => Glyph::BottomRight,
        (Direction::Right, Direction::Right) => Glyph::Horizontal,
        (Direction::Right, Direction::Down) => Glyph::TopRight,
        (Direction::Down, Direction::Right) => Glyph::BottomLeft,
        (Direction::Down, Direction::Down) => Glyph::Vertical,
        (Direction::Down, Direction::Left) => Glyph::BottomRight,
        (Direction::Left, Direction::Up) => Glyph::BottomLeft,
        (Direction::Left, Direction::Down) => Glyph::TopLeft,
        (Direction::Left, Direction::Left) => Glyph::Horizontal,
        _ => Glyph::Vertical,
    }
}

/// The cells of a snake, head first: the head shows its heading, every
/// other part the straight piece or corner that joins it to its neighbour
/// towards the head; all in red.
pub fn snake_cells(snake: &Snake) -> (cells: Vec<Cell>)
    requires
        drawable(snake@),
    ensures
        cells@ == snake_spec(snake@),
{
    let n = snake.body.len();
    let head = snake.body[0];
    let mut cells: Vec<Cell> = Vec::new();
    cells.push(
        Cell {
            x: head.point.x + 1,
            y: head.point.y + 1,
            glyph: head.direction.head_glyph(),
            color: Color::Red,
        },
    );
    assert(snake@.body[0] == head);
    assert(cells@ =~= Seq::new(1, |i: int| snake_cell(snake@, i)));
    let mut next_direction = head.direction;
    let mut i: usize = 1;
    while i < n
        invariant
            1 <= i <= n,
            n == snake@.body.len(),
            drawable(snake@),
            next_direction == snake@.body[i - 1].direction,
            cells@ == Seq::new(i as nat, |k: int| snake_cell(snake@, k)),
        decreases n - i,
    {
        let part = snake.body[i];
        assert(snake@.body[i as int] == part);
        cells.push(
            Cell {
                x: part.point.x + 1,
                y: part.point.y + 1,
                glyph: segment_glyph_of(part.direction, next_direction),
                color: Color::Red,
            },
        );
        next_direction = part.direction;
        i = i + 1;
        assert(cells@ =~= Seq::new(i as nat, |k: int| snake_cell(snake@, k)));
    }
    cells
}

/// The cell of the apple, in green.
pub fn apple_cell(apple: &Point) -> (c: Cell)
    requires
        apple.x < i32::MAX,
        apple.y < i32::MAX,
    ensures
        c == apple_spec(*apple),
{
    Cell { x: apple.x + 1, y: apple.y + 1, glyph: Glyph::Apple, color: Color::Green }
}

/// Whether `snake_cells` can draw the snake (see `drawable`).
pub fn is_drawable(snake: &Snake) -> (r: bool)
    ensures
        r == drawable(snake@),
{
    let n = snake.body.len();
    if n == 0 {
        return false;
    }
    let mut i: usize = 0;
    while i < n
        invariant
            i <= n,
            n == snake@.body.len(),
            forall|j: int|
                0 <= j < i ==> (#[trigger] snake@.body[j]).point.x < i32::MAX
                    && snake@.body[j].point.y < i32::MAX,
            forall|j: int|
                1 <= j < i ==> !opposite(#[trigger] snake@.body[j].direction, snake@.body[j - 1].direction),
        decreases n - i,
    {
        let part = snake.body[i];
        assert(snake@.body[i as int] == part);
        if part.point.x == i32::MAX || part.point.y == i32::MAX {
            return false;
        }
        if i > 0 && part.direction.is_opposite(snake.body[i - 1].direction) {
            return false;
        }
        i = i + 1;
    }
    true
}

/// Whether `frame_cells` can draw the game (see `frame_drawable`).
pub fn can_draw(game: &Game) -> (r: bool)
    ensures
        r == frame_drawable(game@),
{
    if game.width == i32::MAX || game.height == i32::MAX || game.apple.x == i32::MAX
        || game.apple.y == i32::MAX {
        return false;
    }
    match game.find_player() {
        Some(_) => is_drawable(game.snake()),
        None => false,
    }
}

/// The cells of a frame of the game, in drawing order: the border, the
/// player's snake, the apple.
pub fn frame_cells(game: &Game) -> (cells: Vec<Cell>)
    requires
        frame_drawable(game@),
    ensures
        cells@ == frame_spec(game@),
{
    let mut cells = border_cells(game.width, game.height);
    let mut snake = snake_cells(game.snake());
    cells.append(&mut snake);
    cells.push(apple_cell(&game.apple));
    cells
}

/// Where text of `text_len` characters starts so that it is centred on a
/// `width` by `height` board, `line` rows below the middle (above for a
/// negative `line`): column `width / 2 - text_len / 2`, row
/// `height / 2 + line`, halves rounded towards zero.
pub fn centered_position(width: i32, height: i32, text_len: usize, line: i32) -> (pos: (i32, i32))
    requires
        text_len <= i32::MAX,
        i32::MIN <= half(height) + line <= i32::MAX,
    ensures
        pos.0 == half(width) - text_len / 2,
        pos.1 == half(height) + line,
{
    let half_len = (text_len / 2) as i32;
    (width / 2 - half_len, height / 2 + line)
}

} // verus!
