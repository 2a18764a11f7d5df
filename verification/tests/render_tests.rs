use snake::game::{Game, GameState};
use snake::ids::SnakeId;
use snake::point::{BodyPart, Direction, Point};
use snake::render::{apple_cell, border_cells, centered_position, frame_cells, segment_glyph_of, snake_cells, Cell, Color, Glyph};
use snake::snake::Snake;
use std::collections::VecDeque;

fn cell(x: i32, y: i32, glyph: Glyph, color: Color) -> Cell {
    Cell { x, y, glyph, color }
}

#[test]
fn border_of_a_two_by_one_board() {
    let cells = border_cells(2, 1);
    let p = Color::Plain;
    assert_eq!(
        cells,
        vec![
            cell(0, 2, Glyph::BottomLeft, p),
            cell(0, 0, Glyph::TopLeft, p),
            cell(3, 0, Glyph::TopRight, p),
            cell(3, 2, Glyph::BottomRight, p),
            cell(1, 0, Glyph::Horizontal, p),
            cell(1, 2, Glyph::Horizontal, p),
            cell(2, 0, Glyph::Horizontal, p),
            cell(2, 2, Glyph::Horizontal, p),
            cell(0, 1, Glyph::Vertical, p),
            cell(3, 1, Glyph::Vertical, p),
        ]
    );
    assert_eq!(border_cells(-3, 0).len(), 4);
}

#[test]
fn snake_glyphs_follow_the_body() {
    let mut body = VecDeque::new();
    body.push_back(BodyPart { point: Point { x: 2, y: 0 }, direction: Direction::Up });
    body.push_back(BodyPart { point: Point { x: 2, y: 1 }, direction: Direction::Right });
    body.push_back(BodyPart { point: Point { x: 1, y: 1 }, direction: Direction::Right });
    let s = Snake { id: SnakeId { bytes: [0; 16] }, next_direction: None, body };
    let r = Color::Red;
    assert_eq!(
        snake_cells(&s),
        vec![cell(3, 1, Glyph::HeadUp, r), cell(3, 2, Glyph::BottomRight, r), cell(2, 2, Glyph::Horizontal, r)]
    );
}

#[test]
fn segment_glyph_table() {
    let table = [
        (Direction::Up, Direction::Up, Glyph::Vertical),
        (Direction::Up, Direction::Right, Glyph::TopLeft),
        (Direction::Up, Direction::Left, Glyph::TopRight),
        (Direction::Right, Direction::Up, Glyph::BottomRight),
        (Direction::Right, Direction::Right, Glyph::Horizontal),
        (Direction::Right, Direction::Down, Glyph::TopRight),
        (Direction::Down, Direction::Right, Glyph::BottomLeft),
        (Direction::Down, Direction::Down, Glyph::Vertical),
        (Direction::Down, Direction::Left, Glyph::BottomRight),
        (Direction::Left, Direction::Up, Glyph::BottomLeft),
        (Direction::Left, Direction::Down, Glyph::TopLeft),
        (Direction::Left, Direction::Left, Glyph::Horizontal),
    ];
    for (cur, next, g) in table {
        assert_eq!(segment_glyph_of(cur, next), g);
    }
}

#[test]
fn frame_is_border_snake_apple() {
    let game = Game::start(4, 2, SnakeId { bytes: [1; 16] }, Point { x: 0, y: 1 });
    assert_eq!(game.state, GameState::Running);
    let cells = frame_cells(&game);
    let border = border_cells(4, 2);
    let snake = snake_cells(game.snake());
    assert_eq!(cells.len(), border.len() + snake.len() + 1);
    assert_eq!(&cells[..border.len()], &border[..]);
    assert_eq!(&cells[border.len()..border.len() + snake.len()], &snake[..]);
    assert_eq!(*cells.last().unwrap(), apple_cell(&game.apple));
    assert_eq!(apple_cell(&game.apple), cell(1, 2, Glyph::Apple, Color::Green));
    assert_eq!(snake[0], cell(3, 2, Glyph::HeadRight, Color::Red));
}

#[test]
fn centred_text() {
    assert_eq!(centered_position(40, 20, 10, -1), (15, 9));
    assert_eq!(centered_position(40, 20, 12, 0), (14, 10));
    assert_eq!(centered_position(-5, -5, 3, 1), (-3, -1));
}
