use rusty_snake::control::{
    calculate_direction, direction_from_key, fold_key, judge, Verdict, KEY_DOWN, KEY_LEFT,
    KEY_RIGHT, KEY_UP,
};
use rusty_snake::geometry::{Field, DIRECTION};
use rusty_snake::render::RenderOp;
use rusty_snake::snake::Snake;

fn cell(y: i32, x: i32) -> Field {
    Field { y, x }
}

fn all_directions() -> Vec<DIRECTION> {
    vec![DIRECTION::Down, DIRECTION::Up, DIRECTION::Right, DIRECTION::Left]
}

#[test]
fn fields_are_equal_when_both_coordinates_are() {
    assert_eq!(cell(3, 4), cell(3, 4));
    assert_ne!(cell(3, 4), cell(4, 3));
    assert_ne!(cell(3, 4), cell(3, 5));
    assert_ne!(cell(3, 4), cell(2, 4));
}

#[test]
fn opposite_pairs_up_with_down_and_left_with_right() {
    assert_eq!(DIRECTION::Up.opposite(), DIRECTION::Down);
    assert_eq!(DIRECTION::Down.opposite(), DIRECTION::Up);
    assert_eq!(DIRECTION::Left.opposite(), DIRECTION::Right);
    assert_eq!(DIRECTION::Right.opposite(), DIRECTION::Left);
}

#[test]
fn new_snake_facing_right_trails_to_the_left() {
    let snake = Snake::new(10, 5, DIRECTION::Right, 4);
    assert_eq!(snake.body, vec![cell(10, 5), cell(10, 4)]);
    assert_eq!(snake.direction, DIRECTION::Right);
    assert_eq!(snake.color, 4);
}

#[test]
fn new_snake_facing_anything_else_trails_to_the_right() {
    for d in vec![DIRECTION::Left, DIRECTION::Up, DIRECTION::Down] {
        let snake = Snake::new(-2, 7, d, 5);
        assert_eq!(snake.body, vec![cell(-2, 7), cell(-2, 8)]);
        assert_eq!(snake.direction, d);
        assert_eq!(snake.color, 5);
    }
}

#[test]
fn change_direction_ignores_the_half_turn_only() {
    for current in all_directions() {
        for requested in all_directions() {
            let mut snake = Snake::new(5, 5, current, 4);
            let body = snake.body.clone();
            snake.change_direction(&requested);
            if requested == current.opposite() {
                assert_eq!(snake.direction, current);
            } else {
                assert_eq!(snake.direction, requested);
            }
            assert_eq!(snake.body, body);
            assert_eq!(snake.color, 4);
        }
    }
}

#[test]
fn change_direction_goes_by_the_current_direction() {
    let mut snake = Snake::new(5, 5, DIRECTION::Right, 4);
    snake.change_direction(&DIRECTION::Left);
    assert_eq!(snake.direction, DIRECTION::Right);
    snake.change_direction(&DIRECTION::Up);
    assert_eq!(snake.direction, DIRECTION::Up);
    snake.change_direction(&DIRECTION::Left);
    assert_eq!(snake.direction, DIRECTION::Left);
    snake.change_direction(&DIRECTION::Right);
    assert_eq!(snake.direction, DIRECTION::Left);
}

#[test]
fn get_head_is_the_first_segment() {
    let snake = Snake::new(10, 5, DIRECTION::Right, 4);
    assert_eq!(snake.get_head(), (10, 5));
    let synthetic = Snake { body: vec![cell(1, 2), cell(3, 4), cell(5, 6)], direction: DIRECTION::Up, color: 5 };
    assert_eq!(synthetic.get_head(), (1, 2));
}

#[test]
fn move_snake_puts_the_head_one_step_on_and_grows_by_one() {
    let cases: Vec<(DIRECTION, (i32, i32))> = vec![
        (DIRECTION::Down, (11, 5)),
        (DIRECTION::Up, (9, 5)),
        (DIRECTION::Left, (10, 4)),
        (DIRECTION::Right, (10, 6)),
    ];
    for (d, expected) in cases {
        let mut snake = Snake { body: vec![cell(10, 5), cell(20, 20)], direction: d, color: 4 };
        let drawn = snake.move_snake();
        assert_eq!(snake.get_head(), expected);
        assert_eq!(snake.body, vec![cell(expected.0, expected.1), cell(10, 5), cell(20, 20)]);
        assert_eq!(snake.direction, d);
        assert_eq!(drawn, RenderOp::Block(cell(expected.0, expected.1), 4));
    }
}

#[test]
fn can_move_looks_one_step_ahead() {
    let mut snake = Snake { body: vec![cell(i32::MAX, i32::MIN), cell(0, 0)], direction: DIRECTION::Down, color: 4 };
    assert!(!snake.can_move());
    snake.direction = DIRECTION::Left;
    assert!(!snake.can_move());
    snake.direction = DIRECTION::Up;
    assert!(snake.can_move());
    snake.direction = DIRECTION::Right;
    assert!(snake.can_move());
    let mut other = Snake { body: vec![cell(i32::MIN, i32::MAX)], direction: DIRECTION::Up, color: 4 };
    assert!(!other.can_move());
    other.direction = DIRECTION::Right;
    assert!(!other.can_move());
    other.direction = DIRECTION::Down;
    assert!(other.can_move());
    let headless = Snake { body: Vec::new(), direction: DIRECTION::Up, color: 4 };
    assert!(!headless.can_move());
}

#[test]
fn move_snake_twice_grows_by_two() {
    let mut snake = Snake::new(10, 5, DIRECTION::Right, 4);
    snake.move_snake();
    snake.change_direction(&DIRECTION::Down);
    snake.move_snake();
    assert_eq!(snake.body, vec![cell(11, 6), cell(10, 6), cell(10, 5), cell(10, 4)]);
}

#[test]
fn hits_itself_looks_past_the_head() {
    let biting = Snake { body: vec![cell(5, 5), cell(5, 6), cell(5, 5)], direction: DIRECTION::Left, color: 4 };
    assert!(biting.hits_itself());
    let straight = Snake { body: vec![cell(5, 5), cell(5, 6), cell(5, 7)], direction: DIRECTION::Left, color: 4 };
    assert!(!straight.hits_itself());
    let lone = Snake { body: vec![cell(5, 5)], direction: DIRECTION::Left, color: 4 };
    assert!(!lone.hits_itself());
}

#[test]
fn is_in_finds_a_cell() {
    let cells = vec![cell(1, 1), cell(2, 2)];
    assert!(cell(2, 2).is_in(&cells));
    assert!(!cell(2, 1).is_in(&cells));
    assert!(!cell(2, 2).is_in(&Vec::new()));
}

#[test]
fn arrow_codes_map_to_directions() {
    assert_eq!(KEY_DOWN, 258);
    assert_eq!(KEY_UP, 259);
    assert_eq!(KEY_LEFT, 260);
    assert_eq!(KEY_RIGHT, 261);
    assert_eq!(direction_from_key(258), Some(DIRECTION::Down));
    assert_eq!(direction_from_key(259), Some(DIRECTION::Up));
    assert_eq!(direction_from_key(260), Some(DIRECTION::Left));
    assert_eq!(direction_from_key(261), Some(DIRECTION::Right));
    assert_eq!(direction_from_key(-1), None);
    assert_eq!(direction_from_key(113), None);
}

#[test]
fn fold_key_keeps_the_intent_on_other_codes() {
    assert_eq!(fold_key(DIRECTION::Left, KEY_UP), DIRECTION::Up);
    assert_eq!(fold_key(DIRECTION::Left, -1), DIRECTION::Left);
    assert_eq!(fold_key(DIRECTION::Down, 113), DIRECTION::Down);
}

#[test]
fn calculate_direction_goes_sideways_first() {
    let snake = Snake::new(10, 10, DIRECTION::Up, 5);
    assert_eq!(calculate_direction(&snake, &3, &20, &10, &10), DIRECTION::Right);
    assert_eq!(calculate_direction(&snake, &3, &2, &10, &10), DIRECTION::Left);
    assert_eq!(calculate_direction(&snake, &10, &2, &10, &10), DIRECTION::Left);
}

#[test]
fn calculate_direction_goes_up_or_down_once_in_the_column() {
    let snake = Snake::new(10, 10, DIRECTION::Left, 5);
    assert_eq!(calculate_direction(&snake, &3, &10, &10, &10), DIRECTION::Up);
    assert_eq!(calculate_direction(&snake, &13, &10, &10, &10), DIRECTION::Down);
    assert_eq!(calculate_direction(&snake, &10, &10, &10, &10), DIRECTION::Left);
}

#[test]
fn calculate_direction_goes_sideways_whatever_the_heading() {
    let heading_right = Snake::new(5, 5, DIRECTION::Right, 5);
    assert_eq!(calculate_direction(&heading_right, &8, &2, &5, &5), DIRECTION::Left);
    assert_eq!(calculate_direction(&heading_right, &3, &2, &5, &5), DIRECTION::Left);
    assert_eq!(calculate_direction(&heading_right, &5, &2, &5, &5), DIRECTION::Left);
    assert_eq!(calculate_direction(&heading_right, &8, &9, &5, &5), DIRECTION::Right);
    let heading_left = Snake::new(10, 10, DIRECTION::Left, 5);
    assert_eq!(calculate_direction(&heading_left, &3, &20, &10, &10), DIRECTION::Right);
    assert_eq!(calculate_direction(&heading_left, &13, &20, &10, &10), DIRECTION::Right);
    assert_eq!(calculate_direction(&heading_left, &10, &20, &10, &10), DIRECTION::Right);
    for heading in all_directions() {
        let snake = Snake::new(10, 10, heading, 5);
        assert_eq!(calculate_direction(&snake, &3, &2, &10, &10), DIRECTION::Left);
        assert_eq!(calculate_direction(&snake, &3, &20, &10, &10), DIRECTION::Right);
        assert_eq!(calculate_direction(&snake, &3, &10, &10, &10), DIRECTION::Up);
        assert_eq!(calculate_direction(&snake, &13, &10, &10, &10), DIRECTION::Down);
        assert_eq!(calculate_direction(&snake, &10, &10, &10, &10), DIRECTION::Left);
    }
}

#[test]
fn judge_compares_the_scores() {
    assert_eq!(judge(5, 3), Verdict::Win);
    assert_eq!(judge(3, 3), Verdict::Tie);
    assert_eq!(judge(2, 3), Verdict::Lose);
}
