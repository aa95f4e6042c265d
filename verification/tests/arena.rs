use rusty_snake::game::{FoodCheck, Game, MODE};
use rusty_snake::geometry::{Field, DIRECTION};
use rusty_snake::render::{RenderOp, COLOR_PAIR_SNK1, COLOR_PAIR_SNK2};
use rusty_snake::snake::Snake;

fn cell(y: i32, x: i32) -> Field {
    Field { y, x }
}

fn snake_of(body: Vec<Field>) -> Snake {
    Snake { body, direction: DIRECTION::Left, color: 4 }
}

fn arena_at(height: i32, width: i32, start_y: i32, start_x: i32) -> Game {
    let mut game = Game::new(height, width);
    game.set_start(start_y, start_x);
    game
}

#[test]
fn new_game_starts_single_at_the_origin() {
    let mut game = Game::new(20, 60);
    assert_eq!(game.get_mode(), MODE::Single);
    assert_eq!(game.game_area_height, 20);
    assert_eq!(game.game_area_width, 60);
    assert_eq!(game.game_area_start_y, 0);
    assert_eq!(game.game_area_start_x, 0);
    assert!(game.clear1_buffer.is_empty());
    assert!(game.clear2_buffer.is_empty());
    assert_eq!(game.get_food(), (0, 0));
}

#[test]
fn set_mode_changes_the_mode_only() {
    let mut game = arena_at(20, 60, 3, 7);
    let before = game.clone();
    game.set_mode(MODE::Server);
    assert_eq!(game.get_mode(), MODE::Server);
    game.set_mode(MODE::Client);
    assert_eq!(game.get_mode(), MODE::Client);
    game.set_mode(MODE::Single);
    assert_eq!(game, before);
}

#[test]
fn set_start_moves_the_arena() {
    let game = arena_at(20, 60, 3, 7);
    assert_eq!(game.game_area_start_y, 3);
    assert_eq!(game.game_area_start_x, 7);
    assert_eq!(game.game_area_height, 20);
    assert_eq!(game.game_area_width, 60);
}

#[test]
fn self_collision_ends_the_game() {
    let game = arena_at(20, 60, 0, 0);
    let snakes = vec![
        snake_of(vec![cell(5, 5), cell(5, 6), cell(5, 5)]),
        snake_of(vec![cell(10, 10), cell(10, 11)]),
    ];
    assert!(game.check_collisions(&snakes));
    let swapped = vec![snakes[1].clone(), snakes[0].clone()];
    assert!(game.check_collisions(&swapped));
}

#[test]
fn head_on_the_top_wall_ends_the_game() {
    let game = arena_at(20, 60, 0, 0);
    let snakes = vec![
        snake_of(vec![cell(0, 5), cell(1, 5)]),
        snake_of(vec![cell(10, 10), cell(10, 11)]),
    ];
    assert!(game.check_collisions(&snakes));
}

#[test]
fn head_on_any_wall_ends_the_game() {
    let game = arena_at(20, 60, 3, 7);
    let away = snake_of(vec![cell(10, 10), cell(10, 11)]);
    for head in vec![cell(3, 20), cell(22, 20), cell(10, 7), cell(10, 66)] {
        let snakes = vec![away.clone(), snake_of(vec![head, cell(12, 30)])];
        assert!(game.check_collisions(&snakes));
    }
    for head in vec![cell(4, 20), cell(21, 20), cell(10, 8), cell(10, 65)] {
        let snakes = vec![away.clone(), snake_of(vec![head, cell(12, 30)])];
        assert!(!game.check_collisions(&snakes));
    }
}

#[test]
fn head_on_the_other_snake_ends_the_game() {
    let game = arena_at(20, 60, 0, 0);
    let first = snake_of(vec![cell(5, 5), cell(5, 6), cell(5, 7)]);
    let second = snake_of(vec![cell(5, 7), cell(6, 7)]);
    assert!(game.check_collisions(&vec![first.clone(), second.clone()]));
    assert!(game.check_collisions(&vec![second, first]));
    let heads = vec![snake_of(vec![cell(8, 8), cell(8, 9)]), snake_of(vec![cell(8, 8), cell(9, 8)])];
    assert!(game.check_collisions(&heads));
}

#[test]
fn snakes_apart_inside_the_walls_play_on() {
    let game = arena_at(20, 60, 0, 0);
    let snakes = vec![
        snake_of(vec![cell(5, 5), cell(5, 6), cell(5, 7)]),
        snake_of(vec![cell(10, 10), cell(10, 11)]),
    ];
    assert!(!game.check_collisions(&snakes));
}

#[test]
fn a_third_snake_counts_for_itself_and_the_wall() {
    let game = arena_at(20, 60, 0, 0);
    let first = snake_of(vec![cell(5, 5), cell(5, 6)]);
    let second = snake_of(vec![cell(10, 10), cell(10, 11)]);
    let on_first = snake_of(vec![cell(5, 6), cell(6, 6)]);
    assert!(!game.check_collisions(&vec![first.clone(), second.clone(), on_first]));
    let on_wall = snake_of(vec![cell(19, 6), cell(18, 6)]);
    assert!(game.check_collisions(&vec![first, second, on_wall]));
}

#[test]
fn is_on_border_knows_the_four_lines() {
    let game = arena_at(20, 60, 3, 7);
    assert!(game.is_on_border(cell(3, 100)));
    assert!(game.is_on_border(cell(22, -4)));
    assert!(game.is_on_border(cell(10, 7)));
    assert!(game.is_on_border(cell(10, 66)));
    assert!(!game.is_on_border(cell(10, 30)));
    assert!(!game.is_on_border(cell(23, 67)));
}

#[test]
fn check_food_off_the_food_drops_the_tail() {
    let mut game = arena_at(20, 60, 0, 0);
    game.food = cell(15, 15);
    let mut snake = Snake::new(10, 5, DIRECTION::Right, 4);
    let before: usize = snake.body.len();
    snake.move_snake();
    assert_eq!(snake.body.len(), before + 1);
    let unchanged = game.clone();
    let outcome = game.check_food(&mut snake);
    assert_eq!(outcome, FoodCheck::Released(cell(10, 4)));
    assert_eq!(snake.body.len(), before);
    assert_eq!(snake.body, vec![cell(10, 6), cell(10, 5)]);
    assert_eq!(game, unchanged);
}

#[test]
fn check_food_on_the_food_keeps_the_length_and_moves_the_food() {
    let mut game = arena_at(20, 60, 0, 0);
    game.food = cell(10, 6);
    let mut snake = Snake::new(10, 5, DIRECTION::Right, 4);
    snake.move_snake();
    let outcome = game.check_food(&mut snake);
    assert_eq!(snake.body, vec![cell(10, 6), cell(10, 5), cell(10, 4)]);
    match outcome {
        FoodCheck::Placed(f) => {
            assert_eq!(game.food, f);
            assert!(!snake.body.contains(&f));
            assert!(1 <= f.y && f.y < 19 && 1 <= f.x && f.x < 59);
        }
        other => panic!("the food was not placed: {:?}", other),
    }
}

#[test]
fn check_food_on_a_full_board_reports_it() {
    let mut game = arena_at(3, 4, 0, 0);
    game.food = cell(1, 1);
    let mut snake = snake_of(vec![cell(1, 1), cell(1, 2)]);
    let outcome = game.check_food(&mut snake);
    assert_eq!(outcome, FoodCheck::Exhausted);
    assert_eq!(game.food, cell(1, 1));
    assert_eq!(snake.body, vec![cell(1, 1), cell(1, 2)]);
}

#[test]
fn advance_moves_then_checks_the_food() {
    let mut game = arena_at(20, 60, 0, 0);
    game.food = cell(10, 7);
    let mut snake = Snake::new(10, 5, DIRECTION::Right, 4);
    let (drawn, outcome) = game.advance(&mut snake);
    assert_eq!(drawn, RenderOp::Block(cell(10, 6), 4));
    assert_eq!(outcome, FoodCheck::Released(cell(10, 4)));
    assert_eq!(snake.body, vec![cell(10, 6), cell(10, 5)]);
    let (drawn, outcome) = game.advance(&mut snake);
    assert_eq!(drawn, RenderOp::Block(cell(10, 7), 4));
    assert!(matches!(outcome, FoodCheck::Placed(_)));
    assert_eq!(snake.body, vec![cell(10, 7), cell(10, 6), cell(10, 5)]);
    assert_ne!(game.food, cell(10, 7));
}

#[test]
fn new_food_keeps_off_both_lists_and_off_the_wall() {
    let game = arena_at(6, 7, 3, 7);
    let first = vec![cell(4, 8), cell(4, 9), cell(4, 10), cell(5, 8)];
    let second = vec![cell(7, 12), cell(7, 11), cell(6, 11), cell(5, 10)];
    for _ in 0..500 {
        let food = game.new_food(&first, &second).unwrap();
        assert!(!first.contains(&food));
        assert!(!second.contains(&food));
        assert!(4 <= food.y && food.y <= 7);
        assert!(8 <= food.x && food.x <= 12);
        assert!(game.is_free(food, &first, &second));
    }
}

#[test]
fn new_food_finds_the_last_free_cell() {
    let game = arena_at(4, 4, 0, 0);
    let first = vec![cell(1, 1), cell(1, 2)];
    let second = vec![cell(2, 1)];
    for _ in 0..50 {
        assert_eq!(game.new_food(&first, &second), Some(cell(2, 2)));
    }
}

#[test]
fn new_food_gives_up_on_a_full_board() {
    let game = arena_at(4, 4, 0, 0);
    let first = vec![cell(1, 1), cell(1, 2)];
    let second = vec![cell(2, 1), cell(2, 2)];
    assert_eq!(game.new_food(&first, &second), None);
    assert_eq!(game.first_free_cell(&first, &second), None);
}

#[test]
fn new_food_gives_up_where_there_is_no_interior() {
    let none: Vec<Field> = Vec::new();
    assert_eq!(arena_at(2, 60, 0, 0).new_food(&none, &none), None);
    assert_eq!(arena_at(20, 2, 0, 0).new_food(&none, &none), None);
    assert_eq!(arena_at(0, 0, 0, 0).new_food(&none, &none), None);
    assert_eq!(arena_at(-5, 60, 0, 0).new_food(&none, &none), None);
}

#[test]
fn new_food_does_not_always_land_on_the_same_cell() {
    let game = arena_at(20, 60, 0, 0);
    let none: Vec<Field> = Vec::new();
    let first = game.new_food(&none, &none).unwrap();
    let mut varied = false;
    for _ in 0..200 {
        if game.new_food(&none, &none).unwrap() != first {
            varied = true;
        }
    }
    assert!(varied);
}

#[test]
fn first_free_cell_goes_by_row_then_column() {
    let game = arena_at(5, 5, 10, 20);
    let none: Vec<Field> = Vec::new();
    assert_eq!(game.first_free_cell(&none, &none), Some(cell(11, 21)));
    let first = vec![cell(11, 21), cell(11, 22)];
    let second = vec![cell(11, 23), cell(12, 21)];
    assert_eq!(game.first_free_cell(&first, &second), Some(cell(12, 22)));
}

#[test]
fn first_free_cell_works_at_the_edge_of_the_grid() {
    let game = arena_at(i32::MAX, i32::MAX, i32::MAX - 1, i32::MAX - 1);
    let none: Vec<Field> = Vec::new();
    assert_eq!(game.first_free_cell(&none, &none), Some(cell(i32::MAX, i32::MAX)));
    assert_eq!(game.new_food(&vec![cell(i32::MAX, i32::MAX)], &none), None);
}

#[test]
fn is_free_wants_an_interior_cell_in_neither_list() {
    let game = arena_at(5, 5, 0, 0);
    let first = vec![cell(1, 1)];
    let second = vec![cell(2, 2)];
    assert!(game.is_free(cell(3, 3), &first, &second));
    assert!(!game.is_free(cell(1, 1), &first, &second));
    assert!(!game.is_free(cell(2, 2), &first, &second));
    assert!(!game.is_free(cell(0, 3), &first, &second));
    assert!(!game.is_free(cell(4, 3), &first, &second));
    assert!(!game.is_free(cell(3, 0), &first, &second));
    assert!(!game.is_free(cell(3, 4), &first, &second));
}

#[test]
fn init_food_places_and_reports_the_food() {
    let mut game = arena_at(4, 4, 0, 0);
    let first = vec![cell(1, 1), cell(1, 2)];
    let second = vec![cell(2, 2)];
    assert_eq!(game.init_food(&first, &second), Some(RenderOp::Food(cell(2, 1))));
    assert_eq!(game.food, cell(2, 1));
    let full = vec![cell(2, 1), cell(2, 2)];
    let before = game.clone();
    assert_eq!(game.init_food(&first, &full), None);
    assert_eq!(game, before);
}

#[test]
fn transform_coords_subtracts_the_offset() {
    let game = arena_at(20, 60, 3, 7);
    let mut buffer = vec![cell(5, 9), cell(3, 7), cell(0, 0)];
    game.transform_coords(&mut buffer);
    assert_eq!(buffer, vec![cell(2, 2), cell(0, 0), cell(-3, -7)]);
    let mut empty: Vec<Field> = Vec::new();
    game.transform_coords(&mut empty);
    assert!(empty.is_empty());
}

#[test]
fn food_is_read_as_stored_and_relative_to_the_arena() {
    let mut game = arena_at(20, 60, 3, 7);
    game.food = cell(8, 12);
    assert_eq!(game.get_food(), (8, 12));
    assert_eq!(game.get_food_win(), (5, 5));
}

#[test]
fn set_food_clears_the_old_cell_and_draws_the_new() {
    let mut game = arena_at(20, 60, 3, 7);
    let ops = game.set_food(5, 5);
    assert_eq!(ops, (RenderOp::Clear(cell(3, 7)), RenderOp::Food(cell(8, 12))));
    assert_eq!(game.get_food(), (5, 5));
    let ops = game.set_food(6, 9);
    assert_eq!(ops, (RenderOp::Clear(cell(8, 12)), RenderOp::Food(cell(9, 16))));
    assert_eq!(game.get_food(), (6, 9));
}

#[test]
fn draw_snake_clears_what_left_and_draws_what_is() {
    let mut game = arena_at(20, 60, 3, 7);
    let ops = game.draw_snake(vec![cell(2, 2), cell(2, 3)], vec![cell(2, 8), cell(2, 7)]);
    assert_eq!(
        ops,
        vec![
            RenderOp::Block(cell(5, 9), COLOR_PAIR_SNK1),
            RenderOp::Block(cell(5, 10), COLOR_PAIR_SNK1),
            RenderOp::Block(cell(5, 15), COLOR_PAIR_SNK2),
            RenderOp::Block(cell(5, 14), COLOR_PAIR_SNK2),
        ]
    );
    assert_eq!(game.clear1_buffer, vec![cell(2, 2), cell(2, 3)]);
    assert_eq!(game.clear2_buffer, vec![cell(2, 8), cell(2, 7)]);
    let ops = game.draw_snake(vec![cell(2, 1), cell(2, 2)], vec![cell(3, 8), cell(2, 8), cell(2, 7)]);
    assert_eq!(
        ops,
        vec![
            RenderOp::Clear(cell(5, 10)),
            RenderOp::Block(cell(5, 8), COLOR_PAIR_SNK1),
            RenderOp::Block(cell(5, 9), COLOR_PAIR_SNK1),
            RenderOp::Block(cell(6, 15), COLOR_PAIR_SNK2),
            RenderOp::Block(cell(5, 15), COLOR_PAIR_SNK2),
            RenderOp::Block(cell(5, 14), COLOR_PAIR_SNK2),
        ]
    );
    assert_eq!(game.clear1_buffer, vec![cell(2, 1), cell(2, 2)]);
    assert_eq!(game.clear2_buffer, vec![cell(3, 8), cell(2, 8), cell(2, 7)]);
}

#[test]
fn fit_checks_catch_cells_off_the_grid() {
    let game = arena_at(20, 60, 10, -10);
    assert!(game.all_fit_screen(&vec![cell(0, 0), cell(i32::MAX - 10, i32::MIN + 10)]));
    assert!(!game.all_fit_screen(&vec![cell(0, 0), cell(i32::MAX - 9, 0)]));
    assert!(!game.all_fit_screen(&vec![cell(0, i32::MIN + 9)]));
    assert!(game.all_fit_arena(&vec![cell(i32::MIN + 10, i32::MAX - 10)]));
    assert!(!game.all_fit_arena(&vec![cell(i32::MIN + 9, 0)]));
    assert!(!game.all_fit_arena(&vec![cell(0, 0), cell(0, i32::MAX - 9)]));
    assert!(game.all_fit_screen(&Vec::new()));
    assert!(game.all_fit_arena(&Vec::new()));
}

#[test]
fn spawning_needs_cells_of_the_grid() {
    assert!(arena_at(20, 60, 5, 10).has_room_to_spawn());
    assert!(arena_at(20, 60, i32::MAX - 10, 0).has_room_to_spawn());
    assert!(!arena_at(20, 60, i32::MAX - 9, 0).has_room_to_spawn());
    assert!(arena_at(20, 60, 0, i32::MAX - 58).has_room_to_spawn());
    assert!(!arena_at(20, 60, 0, i32::MAX - 57).has_room_to_spawn());
    assert!(!arena_at(20, -60, 0, i32::MIN + 62).has_room_to_spawn());
    assert!(arena_at(20, -60, 0, i32::MIN + 63).has_room_to_spawn());
    assert!(arena_at(-7, 60, i32::MIN + 3, 0).has_room_to_spawn());
    assert!(!arena_at(-7, 60, i32::MIN + 2, 0).has_room_to_spawn());
}

#[test]
fn spawn_snakes_puts_both_on_the_middle_row() {
    let game = arena_at(20, 60, 5, 10);
    let snakes = game.spawn_snakes();
    assert_eq!(snakes.len(), 2);
    assert_eq!(snakes[0].body, vec![cell(15, 12), cell(15, 11)]);
    assert_eq!(snakes[0].direction, DIRECTION::Right);
    assert_eq!(snakes[0].color, COLOR_PAIR_SNK1);
    assert_eq!(snakes[1].body, vec![cell(15, 67), cell(15, 68)]);
    assert_eq!(snakes[1].direction, DIRECTION::Left);
    assert_eq!(snakes[1].color, COLOR_PAIR_SNK2);
    assert!(!game.check_collisions(&snakes));
    let odd = arena_at(7, 60, 0, 0).spawn_snakes();
    assert_eq!(odd[0].get_head(), (3, 2));
}

#[test]
fn first_free_draw_takes_the_first_draw_that_is_free() {
    let game = arena_at(6, 7, 3, 7);
    let first = vec![cell(4, 8), cell(4, 9)];
    let second = vec![cell(5, 10)];
    let draws = vec![cell(4, 9), cell(5, 10), cell(3, 8), cell(6, 11), cell(4, 8), cell(7, 12)];
    assert_eq!(game.first_free_draw(&draws, &first, &second), Some(cell(6, 11)));
    assert_eq!(game.food_from_draws(&draws, &first, &second), Some(cell(6, 11)));
    let draws = vec![cell(7, 12), cell(6, 11)];
    assert_eq!(game.first_free_draw(&draws, &first, &second), Some(cell(7, 12)));
    assert_eq!(game.food_from_draws(&draws, &first, &second), Some(cell(7, 12)));
}

#[test]
fn first_free_draw_is_none_when_no_draw_is_free() {
    let game = arena_at(6, 7, 3, 7);
    let first = vec![cell(4, 8), cell(4, 9)];
    let second = vec![cell(5, 10)];
    let taken = vec![cell(4, 9), cell(5, 10), cell(4, 8), cell(3, 7), cell(8, 13), cell(4, 13)];
    assert_eq!(game.first_free_draw(&taken, &first, &second), None);
    assert_eq!(game.first_free_draw(&Vec::new(), &first, &second), None);
}

#[test]
fn food_from_draws_falls_back_on_the_first_free_cell() {
    let game = arena_at(6, 7, 3, 7);
    let first = vec![cell(4, 8), cell(4, 9)];
    let second = vec![cell(5, 10)];
    let taken = vec![cell(4, 9), cell(5, 10), cell(4, 8)];
    assert_eq!(game.food_from_draws(&taken, &first, &second), Some(cell(4, 10)));
    assert_eq!(game.food_from_draws(&Vec::new(), &first, &second), Some(cell(4, 10)));
    let full = arena_at(4, 4, 0, 0);
    let all = vec![cell(1, 1), cell(1, 2), cell(2, 1), cell(2, 2)];
    assert_eq!(full.food_from_draws(&all, &all, &Vec::new()), None);
    assert_eq!(full.food_from_draws(&Vec::new(), &Vec::new(), &all), None);
}
