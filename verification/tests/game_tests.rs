use snake::game::{Config, Game, GameState};
use snake::ids::SnakeId;
use snake::point::{BodyPart, Direction, Point};
use snake::snake::Snake;
use std::collections::VecDeque;

fn snake_of(id: SnakeId, next: Option<Direction>, parts: &[(i32, i32, Direction)]) -> Snake {
    let mut body = VecDeque::new();
    for &(x, y, d) in parts {
        body.push_back(BodyPart { point: Point { x, y }, direction: d });
    }
    Snake { id, next_direction: next, body }
}

fn id_of(seed: u8) -> SnakeId {
    let mut bytes = [0u8; 16];
    for (i, b) in bytes.iter_mut().enumerate() {
        *b = seed.wrapping_add(i as u8);
    }
    SnakeId { bytes }
}

fn game_with(snakes: Vec<Snake>, player: SnakeId, apple: Point, width: i32, height: i32) -> Game {
    Game { snakes, player_snake_id: player, apple, state: GameState::Running, width, height }
}

#[test]
fn can_serialize_and_deserialize_game_to_byte_array() {
    let game = Game::new_game(10, 10);

    let serialized_game = game.to_byte_array();

    let deserizlied_game = Game::from_byte_array(serialized_game);

    assert_eq!(game.height, deserizlied_game.height);
    assert_eq!(game.width, deserizlied_game.width);
    assert_eq!(game.state, deserizlied_game.state);
    assert_eq!(game.apple, deserizlied_game.apple);
    assert_eq!(game.player_snake_id, deserizlied_game.player_snake_id);
    assert_eq!(game.snakes.len(), deserizlied_game.snakes.len());
    assert_eq!(game.snakes[0].id, deserizlied_game.snakes[0].id);
    assert_eq!(game.snakes[0].body.len(), deserizlied_game.snakes[0].body.len());
    assert_eq!(game.snakes[0].direction(), deserizlied_game.snakes[0].direction());
    assert_eq!(game.snakes[0].head_position(), deserizlied_game.snakes[0].head_position());
    assert_eq!(game.snakes[0].body[0].point, deserizlied_game.snakes[0].body[0].point);
    assert_eq!(game.snakes[0].body[0].direction, deserizlied_game.snakes[0].body[0].direction);
    assert_eq!(game.snakes[0].body[1].point, deserizlied_game.snakes[0].body[1].point);
    assert_eq!(game.snakes[0].body[1].direction, deserizlied_game.snakes[0].body[1].direction);
    assert_eq!(game.snakes[0].body[2].point, deserizlied_game.snakes[0].body[2].point);
    assert_eq!(game.snakes[0].body[2].direction, deserizlied_game.snakes[0].body[2].direction);

    assert_eq!(game.to_byte_array(), deserizlied_game.to_byte_array());
}

#[test]
fn new_game_places_snake_in_the_middle_heading_right() {
    let game = Game::new_game(10, 8);
    assert_eq!(game.state, GameState::Running);
    assert_eq!(game.snakes.len(), 1);
    assert_eq!(game.snakes[0].id, game.player_snake_id);
    assert_eq!(game.snakes[0].next_direction, None);
    let parts: Vec<BodyPart> = game.snakes[0].body.iter().copied().collect();
    assert_eq!(
        parts,
        vec![
            BodyPart { point: Point { x: 5, y: 4 }, direction: Direction::Right },
            BodyPart { point: Point { x: 4, y: 4 }, direction: Direction::Right },
            BodyPart { point: Point { x: 3, y: 4 }, direction: Direction::Right },
        ]
    );
    assert!(0 <= game.apple.x && game.apple.x < 10);
    assert!(0 <= game.apple.y && game.apple.y < 8);
    assert_eq!(game.player_snake_id.bytes[6] >> 4, 4);
    assert_eq!(game.player_snake_id.bytes[8] >> 6, 2);
}

#[test]
fn start_halves_towards_zero() {
    let game = Game::start(-5, 7, id_of(1), Point { x: 2, y: 3 });
    let head = *game.snakes[0].head_position();
    assert_eq!(head, Point { x: -2, y: 3 });
    assert_eq!(game.snakes[0].body[2].point, Point { x: -4, y: 3 });
    assert_eq!(game.apple, Point { x: 2, y: 3 });
}

#[test]
fn game_bytes_have_the_documented_layout() {
    let id = id_of(0x10);
    let snake = snake_of(id, None, &[(1, 2, Direction::Up)]);
    let game = game_with(vec![snake], id, Point { x: 3, y: 4 }, 5, 6);
    let bytes = game.to_byte_array();
    let mut expected = vec![0u8, 5, 0, 0, 0, 6, 0, 0, 0, 3, 0, 0, 0, 4, 0, 0, 0];
    expected.extend(id.to_bytes_le());
    expected.extend([1, 0, 0, 0]);
    expected.extend([30, 0, 0, 0]);
    expected.extend(id.to_bytes_le());
    expected.push(4);
    expected.extend([1, 0, 0, 0]);
    expected.extend([1, 0, 0, 0, 2, 0, 0, 0, 0]);
    assert_eq!(bytes, expected);
}

#[test]
fn several_snakes_round_trip() {
    let a = id_of(1);
    let b = id_of(100);
    let s1 = snake_of(a, Some(Direction::Down), &[(0, 0, Direction::Left), (1, 0, Direction::Left)]);
    let s2 = snake_of(b, Some(Direction::Up), &[(7, -3, Direction::Down)]);
    let mut game = game_with(vec![s1, s2], b, Point { x: -1, y: 9 }, 12, 13);
    game.state = GameState::GameOver;
    let bytes = game.to_byte_array();
    let back = Game::from_byte_array(bytes.clone());
    assert_eq!(back.state, GameState::GameOver);
    assert_eq!(back.snakes.len(), 2);
    assert_eq!(back.snakes[1].id, b);
    assert_eq!(back.snakes[0].next_direction, Some(Direction::Down));
    assert_eq!(back.snakes[1].next_direction, Some(Direction::Up));
    assert_eq!(back.snakes[0].body[1].point, Point { x: 1, y: 0 });
    assert_eq!(back.apple, Point { x: -1, y: 9 });
    assert_eq!(back.to_byte_array(), bytes);
}

#[test]
fn parse_rejects_malformed_games() {
    let id = id_of(3);
    let game = game_with(vec![snake_of(id, None, &[(1, 1, Direction::Up)])], id, Point { x: 0, y: 0 }, 4, 4);
    let good = game.to_byte_array();
    assert!(Game::parse(&good).is_some());
    // too short
    assert!(Game::parse(&good[..36]).is_none());
    // bad state byte
    let mut bad = good.clone();
    bad[0] = 2;
    assert!(Game::parse(&bad).is_none());
    // negative snake length
    let mut bad = good.clone();
    bad[37..41].copy_from_slice(&(-1i32).to_le_bytes());
    assert!(Game::parse(&bad).is_none());
    // snake longer than the input
    let mut bad = good.clone();
    bad[37..41].copy_from_slice(&100i32.to_le_bytes());
    assert!(Game::parse(&bad).is_none());
    // bad pending-turn byte
    let mut bad = good.clone();
    bad[41 + 16] = 5;
    assert!(Game::parse(&bad).is_none());
    // bad direction byte in a body part
    let mut bad = good.clone();
    let last = bad.len() - 1;
    bad[last] = 4;
    assert!(Game::parse(&bad).is_none());
    // a negative snake count means no snakes; trailing bytes are ignored
    let mut no_snakes = good.clone();
    no_snakes[33..37].copy_from_slice(&(-3i32).to_le_bytes());
    let parsed = Game::parse(&no_snakes).unwrap();
    assert_eq!(parsed.snakes.len(), 0);
}

#[test]
fn game_state_codes() {
    assert_eq!(GameState::from_byte(0), GameState::Running);
    assert_eq!(GameState::from_byte(1), GameState::GameOver);
    assert_eq!(GameState::Running.code(), 0);
    assert_eq!(GameState::GameOver.code(), 1);
}

#[test]
fn snake_mut_and_snake_find_the_player() {
    let a = id_of(1);
    let b = id_of(2);
    let s1 = snake_of(a, None, &[(0, 0, Direction::Up)]);
    let s2 = snake_of(b, None, &[(5, 5, Direction::Left)]);
    let mut game = game_with(vec![s1, s2], b, Point { x: 0, y: 0 }, 10, 10);
    assert_eq!(*game.snake().head_position(), Point { x: 5, y: 5 });
    game.snake_mut().set_incoming_direction(Direction::Up);
    assert_eq!(game.snakes[1].next_direction, Some(Direction::Up));
    assert_eq!(game.snakes[0].next_direction, None);
}

#[test]
fn advance_moves_eats_and_ends() {
    let id = id_of(9);
    let snake = snake_of(id, None, &[(2, 2, Direction::Right), (1, 2, Direction::Right)]);
    let mut game = game_with(vec![snake], id, Point { x: 3, y: 2 }, 4, 4);
    game.advance(Point { x: 0, y: 0 });
    assert_eq!(game.snakes[0].body.len(), 3);
    assert_eq!(game.apple, Point { x: 0, y: 0 });
    assert_eq!(game.state, GameState::Running);
    game.advance(Point { x: 1, y: 1 });
    assert_eq!(*game.snake().head_position(), Point { x: 4, y: 2 });
    assert_eq!(game.snakes[0].body.len(), 3);
    assert_eq!(game.apple, Point { x: 0, y: 0 });
    assert_eq!(game.state, GameState::GameOver);
    let before = game.to_byte_array();
    game.advance(Point { x: 1, y: 1 });
    assert_eq!(game.to_byte_array(), before);
}

#[test]
fn update_sends_the_new_game() {
    let id = id_of(4);
    let snake = snake_of(id, Some(Direction::Down), &[(1, 1, Direction::Right)]);
    let mut game = game_with(vec![snake], id, Point { x: 3, y: 3 }, 4, 4);
    let config = Config { server_addr: "127.0.0.1:9000".to_string() };
    let out = game.update(&config).unwrap();
    assert_eq!(out.server_addr, "127.0.0.1:9000");
    assert_eq!(out.payload, game.to_byte_array());
    assert_eq!(*game.snake().head_position(), Point { x: 1, y: 2 });
    assert_eq!(game.snakes[0].next_direction, None);
}

#[test]
fn update_places_a_new_apple_on_the_board_when_eaten() {
    let id = id_of(4);
    let snake = snake_of(id, None, &[(0, 0, Direction::Right)]);
    let mut game = game_with(vec![snake], id, Point { x: 1, y: 0 }, 2, 1);
    let config = Config { server_addr: "a".to_string() };
    assert!(game.update(&config).is_some());
    assert_eq!(game.snakes[0].body.len(), 2);
    assert_eq!(game.apple.y, 0);
    assert!(game.apple.x == 0 || game.apple.x == 1);
}

#[test]
fn update_of_a_finished_game_sends_nothing() {
    let id = id_of(4);
    let snake = snake_of(id, None, &[(0, 0, Direction::Right)]);
    let mut game = game_with(vec![snake], id, Point { x: 1, y: 0 }, 2, 2);
    game.state = GameState::GameOver;
    let config = Config { server_addr: "a".to_string() };
    assert!(game.update(&config).is_none());
    assert_eq!(*game.snake().head_position(), Point { x: 0, y: 0 });
}

#[test]
fn game_over_when_leaving_the_board_or_biting() {
    let id = id_of(5);
    let inside = snake_of(id, None, &[(0, 0, Direction::Up)]);
    let game = game_with(vec![inside], id, Point { x: 3, y: 3 }, 4, 4);
    assert!(!game.is_game_over());
    for head in [(-1, 0), (4, 0), (0, -1), (0, 4)] {
        let s = snake_of(id, None, &[(head.0, head.1, Direction::Up)]);
        let g = game_with(vec![s], id, Point { x: 3, y: 3 }, 4, 4);
        assert!(g.is_game_over());
    }
    let biting = snake_of(
        id,
        None,
        &[(1, 1, Direction::Up), (1, 2, Direction::Left), (2, 2, Direction::Down), (2, 1, Direction::Right), (1, 1, Direction::Right)],
    );
    let g = game_with(vec![biting], id, Point { x: 3, y: 3 }, 4, 4);
    assert!(g.is_game_over());
}

#[test]
fn find_empty_position_stays_on_the_board() {
    let id = id_of(6);
    let game = game_with(vec![snake_of(id, None, &[(0, 0, Direction::Up)])], id, Point { x: 0, y: 0 }, 1, 3);
    for _ in 0..50 {
        let p = game.find_empty_position();
        assert_eq!(p.x, 0);
        assert!(0 <= p.y && p.y < 3);
    }
}
