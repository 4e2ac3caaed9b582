use snake_net::activation::Activation;
use snake_net::error::NetworkError;
use snake_net::matrix::Matrix;
use snake_net::network::Network;
use snake_net::world::{
    corner, fits_screen, free_cells, nth_free_cell, steer, target_for, Direction, Food, Key, Snake, SnakePiece,
    SuggestedDirection, World,
};
use std::collections::VecDeque;

fn identity(x: i64) -> i64 {
    x
}

fn unit_slope(_y: i64) -> i64 {
    1
}

type Brain = Network<i64, fn(i64) -> i64, fn(i64) -> i64>;

fn activation() -> Activation<i64, fn(i64) -> i64, fn(i64) -> i64> {
    Activation::new(identity as fn(i64) -> i64, unit_slope as fn(i64) -> i64)
}

/// A network of one layer whose output slot `k` is `weights[k]` times the
/// sum of the inputs plus `biases[k]`.
fn brain(inputs: usize, weights: [i64; 4], biases: [i64; 4]) -> Brain {
    let mut cells = Vec::new();
    for w in weights {
        for _ in 0..inputs {
            cells.push(w);
        }
    }
    let w = Matrix::from_vec(4, inputs, cells).unwrap();
    let b = Matrix::from_vec(4, 1, biases.to_vec()).unwrap();
    Network::from_parameters(vec![inputs, 4], vec![w], vec![b], 0, activation()).unwrap()
}

fn snake(parts: &[(u32, u32)], d: Direction) -> Snake {
    Snake {
        snake_parts: parts.iter().map(|p| SnakePiece(p.0, p.1)).collect::<VecDeque<_>>(),
        width: 40,
        d,
    }
}

fn parts(s: &Snake) -> Vec<(u32, u32)> {
    s.snake_parts.iter().map(|p| (p.0, p.1)).collect()
}

fn world(parts: &[(u32, u32)], d: Direction, food: (u32, u32), network: Brain) -> World<i64, fn(i64) -> i64, fn(i64) -> i64> {
    World {
        rows: 10,
        cols: 10,
        snake: snake(parts, d),
        just_eaten: false,
        square_width: 40,
        food: Food { x: food.0, y: food.1 },
        suggested_direction: SuggestedDirection { x: 0, y: 0 },
        score: 0,
        network,
    }
}

#[test]
fn is_collide_tells_body_cells_from_others() {
    let s = snake(&[(5, 5), (5, 6), (4, 6)], Direction::UP);
    assert!(s.is_collide(5, 5));
    assert!(s.is_collide(4, 6));
    assert!(!s.is_collide(6, 5));
    assert!(!s.is_collide(6, 4));
}

#[test]
fn environment_in_open_space_is_neutral() {
    let s = snake(&[(5, 5)], Direction::UP);
    let env: Vec<i64> = s.environment(&Food { x: 0, y: 0 }, 10, 10);
    assert_eq!(env, vec![0; 8]);
}

#[test]
fn environment_marks_food_next_to_the_head() {
    let s = snake(&[(5, 5)], Direction::UP);
    let at = |x: u32, y: u32| -> Vec<i64> { s.environment(&Food { x, y }, 10, 10) };
    assert_eq!(at(4, 4), vec![1, 0, 0, 0, 0, 0, 0, 0]);
    assert_eq!(at(5, 4), vec![0, 1, 0, 0, 0, 0, 0, 0]);
    assert_eq!(at(6, 4), vec![0, 0, 1, 0, 0, 0, 0, 0]);
    assert_eq!(at(4, 5), vec![0, 0, 0, 1, 0, 0, 0, 0]);
    assert_eq!(at(6, 5), vec![0, 0, 0, 0, 1, 0, 0, 0]);
    assert_eq!(at(4, 6), vec![0, 0, 0, 0, 0, 1, 0, 0]);
    assert_eq!(at(5, 6), vec![0, 0, 0, 0, 0, 0, 1, 0]);
    assert_eq!(at(6, 6), vec![0, 0, 0, 0, 0, 0, 0, 1]);
}

#[test]
fn environment_marks_walls() {
    let far = Food { x: 5, y: 5 };
    let env: Vec<i64> = snake(&[(0, 0)], Direction::UP).environment(&far, 10, 10);
    assert_eq!(env, vec![-1, -1, -1, -1, 0, -1, 0, 0]);
    let env: Vec<i64> = snake(&[(9, 9)], Direction::UP).environment(&far, 10, 10);
    assert_eq!(env, vec![0, 0, -1, 0, -1, -1, -1, -1]);
}

#[test]
fn environment_marks_the_body() {
    let far = Food { x: 0, y: 9 };
    let s = snake(&[(5, 5), (5, 6), (4, 6), (4, 5)], Direction::UP);
    let env: Vec<i64> = s.environment(&far, 10, 10);
    assert_eq!(env, vec![0, 0, 0, -1, 0, -1, -1, 0]);
}

#[test]
fn environment_lets_an_obstacle_hide_food() {
    let s = snake(&[(5, 5), (5, 6)], Direction::UP);
    let env: Vec<i64> = s.environment(&Food { x: 5, y: 6 }, 10, 10);
    assert_eq!(env, vec![0, 0, 0, 0, 0, 0, -1, 0]);
}

#[test]
fn steer_follows_the_choice_but_never_reverses() {
    assert_eq!(steer(0, Direction::LEFT), Direction::UP);
    assert_eq!(steer(1, Direction::UP), Direction::LEFT);
    assert_eq!(steer(2, Direction::UP), Direction::RIGHT);
    assert_eq!(steer(3, Direction::LEFT), Direction::DOWN);
    assert_eq!(steer(0, Direction::DOWN), Direction::DOWN);
    assert_eq!(steer(1, Direction::RIGHT), Direction::RIGHT);
    assert_eq!(steer(2, Direction::LEFT), Direction::LEFT);
    assert_eq!(steer(3, Direction::UP), Direction::UP);
    assert_eq!(steer(4, Direction::UP), Direction::UP);
}

#[test]
fn target_for_is_one_hot_unless_the_key_reverses() {
    assert_eq!(target_for::<i64>(Key::Up, Direction::LEFT), vec![1, 0, 0, 0]);
    assert_eq!(target_for::<i64>(Key::Left, Direction::UP), vec![0, 1, 0, 0]);
    assert_eq!(target_for::<i64>(Key::Right, Direction::UP), vec![0, 0, 1, 0]);
    assert_eq!(target_for::<i64>(Key::Down, Direction::LEFT), vec![0, 0, 0, 1]);
    assert_eq!(target_for::<i64>(Key::Up, Direction::DOWN), vec![0; 4]);
    assert_eq!(target_for::<i64>(Key::Left, Direction::RIGHT), vec![0; 4]);
    assert_eq!(target_for::<i64>(Key::Right, Direction::LEFT), vec![0; 4]);
    assert_eq!(target_for::<i64>(Key::Down, Direction::UP), vec![0; 4]);
    assert_eq!(target_for::<i64>(Key::Other, Direction::UP), vec![0; 4]);
}

#[test]
fn snake_moves_one_cell_and_drops_its_tail() {
    let mut s = snake(&[(5, 5), (5, 6), (5, 7)], Direction::UP);
    assert!(s.update(false, 10, 10));
    assert_eq!(parts(&s), vec![(5, 4), (5, 5), (5, 6)]);
    s.d = Direction::RIGHT;
    assert!(s.update(false, 10, 10));
    assert_eq!(parts(&s), vec![(6, 4), (5, 4), (5, 5)]);
    s.d = Direction::DOWN;
    assert!(s.update(false, 10, 10));
    assert_eq!(parts(&s), vec![(6, 5), (6, 4), (5, 4)]);
    s.d = Direction::LEFT;
    assert!(s.update(true, 10, 10));
    assert_eq!(parts(&s), vec![(5, 5), (6, 5), (6, 4), (5, 4)]);
}

#[test]
fn snake_stops_at_the_border() {
    for (head, d) in [
        ((3, 0), Direction::UP),
        ((0, 3), Direction::LEFT),
        ((3, 9), Direction::DOWN),
        ((9, 3), Direction::RIGHT),
    ] {
        let mut s = snake(&[head, (4, 4)], d);
        assert!(!s.update(false, 10, 10));
        assert_eq!(parts(&s), vec![head, (4, 4)]);
    }
}

#[test]
fn snake_dies_running_into_itself_after_the_tail_left() {
    let mut s = snake(&[(5, 5), (5, 6), (4, 6), (4, 5), (4, 4)], Direction::LEFT);
    assert!(!s.update(false, 10, 10));
    assert_eq!(parts(&s), vec![(5, 5), (5, 6), (4, 6), (4, 5)]);
}

#[test]
fn snake_may_follow_its_own_tail() {
    let mut s = snake(&[(5, 5), (5, 6), (4, 6), (4, 5)], Direction::LEFT);
    assert!(s.update(false, 10, 10));
    assert_eq!(parts(&s), vec![(4, 5), (5, 5), (5, 6), (4, 6)]);
    let mut s = snake(&[(5, 5), (5, 6), (4, 6), (4, 5)], Direction::LEFT);
    assert!(!s.update(true, 10, 10));
    assert_eq!(parts(&s), vec![(5, 5), (5, 6), (4, 6), (4, 5)]);
}

#[test]
fn free_cells_are_counted_row_by_row() {
    let s = snake(&[(0, 0), (1, 0), (1, 1)], Direction::UP);
    assert_eq!(free_cells(&s, 3, 2), 3);
    assert_eq!(nth_free_cell(&s, 3, 2, 0), Some((2, 0)));
    assert_eq!(nth_free_cell(&s, 3, 2, 1), Some((0, 1)));
    assert_eq!(nth_free_cell(&s, 3, 2, 2), Some((2, 1)));
    assert_eq!(nth_free_cell(&s, 3, 2, 3), None);
    assert_eq!(free_cells(&s, 0, 5), 0);
    assert_eq!(free_cells(&s, 5, 0), 0);
    assert_eq!(free_cells(&s, 10, 10), 97);
}

#[test]
fn food_relocates_to_the_chosen_free_cell() {
    let s = snake(&[(0, 0), (1, 0), (1, 1)], Direction::UP);
    let mut food = Food { x: 0, y: 0 };
    assert!(food.relocate(&s, 3, 2, 1));
    assert_eq!(food, Food { x: 0, y: 1 });
    assert!(!food.relocate(&s, 3, 2, 3));
    assert_eq!(food, Food { x: 0, y: 1 });
}

#[test]
fn food_stays_until_the_head_reaches_it() {
    let s = snake(&[(2, 2), (2, 3)], Direction::UP);
    let mut food = Food { x: 4, y: 4 };
    assert!(!food.update(&s, 10, 10));
    assert_eq!(food, Food { x: 4, y: 4 });
}

#[test]
fn eaten_food_reappears_on_a_free_cell() {
    let s = snake(&[(2, 2), (2, 3), (3, 3)], Direction::UP);
    for _ in 0..200 {
        let mut food = Food { x: 2, y: 2 };
        assert!(food.update(&s, 4, 4));
        assert!(food.x < 4 && food.y < 4);
        assert!(!s.is_collide(food.x, food.y));
    }
}

#[test]
fn eaten_food_has_only_one_place_to_go() {
    let s = snake(&[(0, 0), (1, 0), (1, 1)], Direction::UP);
    let mut food = Food { x: 0, y: 0 };
    assert!(food.update(&s, 2, 2));
    assert_eq!(food, Food { x: 0, y: 1 });
}

#[test]
fn eaten_food_stays_on_a_full_grid() {
    let s = snake(&[(0, 0), (1, 0)], Direction::LEFT);
    let mut food = Food { x: 0, y: 0 };
    assert!(food.update(&s, 2, 1));
    assert_eq!(food, Food { x: 0, y: 0 });
}

#[test]
fn suggestion_points_where_the_network_chooses() {
    let s = snake(&[(5, 5), (5, 6)], Direction::UP);
    let food = Food { x: 0, y: 0 };
    let expect = [(5, 4), (4, 5), (6, 5), (5, 6)];
    for slot in 0..4 {
        let mut biases = [0; 4];
        biases[slot] = 1;
        let mut suggestion = SuggestedDirection { x: 0, y: 0 };
        assert_eq!(suggestion.update(&s, &food, 10, 10, &brain(8, [0; 4], biases)), Ok(()));
        assert_eq!((suggestion.x, suggestion.y), expect[slot]);
    }
}

#[test]
fn suggestion_needs_eight_inputs() {
    let s = snake(&[(5, 5), (5, 6)], Direction::UP);
    let mut suggestion = SuggestedDirection { x: 1, y: 2 };
    assert_eq!(
        suggestion.update(&s, &Food { x: 0, y: 0 }, 10, 10, &brain(7, [0; 4], [0; 4])),
        Err(NetworkError::DimensionMismatch)
    );
    assert_eq!(suggestion, SuggestedDirection { x: 1, y: 2 });
}

#[test]
fn automatic_turns_the_snake_as_the_network_says() {
    let mut w = world(&[(5, 5), (5, 6)], Direction::UP, (0, 0), brain(8, [0; 4], [0, 0, 5, 0]));
    assert_eq!(w.automatic(), Ok(()));
    assert_eq!(w.snake.d, Direction::RIGHT);
    assert_eq!(parts(&w.snake), vec![(5, 5), (5, 6)]);
    let mut w = world(&[(5, 5), (5, 6)], Direction::UP, (0, 0), brain(8, [0; 4], [0, 0, 0, 5]));
    assert_eq!(w.automatic(), Ok(()));
    assert_eq!(w.snake.d, Direction::UP);
}

#[test]
fn automatic_prefers_the_first_of_equal_outputs() {
    let mut w = world(&[(5, 5), (5, 6)], Direction::RIGHT, (0, 0), brain(8, [0; 4], [3, 3, 3, 3]));
    assert_eq!(w.automatic(), Ok(()));
    assert_eq!(w.snake.d, Direction::UP);
}

#[test]
fn automatic_needs_eight_inputs() {
    let mut w = world(&[(5, 5), (5, 6)], Direction::UP, (0, 0), brain(3, [0; 4], [0, 0, 5, 0]));
    assert_eq!(w.automatic(), Err(NetworkError::DimensionMismatch));
    assert_eq!(w.snake.d, Direction::UP);
}

#[test]
fn pressed_trains_before_it_steers() {
    let w0 = Matrix::from_vec(4, 8, vec![0i64; 32]).unwrap();
    let b0 = Matrix::from_vec(4, 1, vec![0i64; 4]).unwrap();
    let net = Network::from_parameters(vec![8, 4], vec![w0], vec![b0], 1, activation()).unwrap();
    let mut w = world(&[(5, 5), (5, 6)], Direction::UP, (6, 5), net);
    // the food lies to the right (slot 4) and the body below (slot 6)
    assert_eq!(w.pressed(Key::Left), Ok(()));
    let mut reference = {
        let w0 = Matrix::from_vec(4, 8, vec![0i64; 32]).unwrap();
        let b0 = Matrix::from_vec(4, 1, vec![0i64; 4]).unwrap();
        Network::from_parameters(vec![8, 4], vec![w0], vec![b0], 1, activation()).unwrap()
    };
    reference
        .train(vec![vec![0, 0, 0, 0, 1, 0, -1, 0]], vec![vec![0, 1, 0, 0]], 10)
        .unwrap();
    assert_eq!(w.network.weights()[0].data(), reference.weights()[0].data());
    assert_eq!(w.network.biases()[0].data(), reference.biases()[0].data());
    let output = reference.feed_forward(vec![0, 0, 0, 0, 1, 0, -1, 0]).unwrap();
    let choice = snake_net::decision::arg_max(&output).unwrap();
    assert_eq!(w.snake.d, steer(choice, Direction::UP));
    assert_eq!(parts(&w.snake), vec![(5, 5), (5, 6)]);
    assert_eq!(w.score, 0);
}

#[test]
fn pressed_needs_eight_inputs_and_four_outputs() {
    let mut w = world(&[(5, 5), (5, 6)], Direction::UP, (0, 0), brain(3, [0; 4], [0, 0, 5, 0]));
    assert_eq!(w.pressed(Key::Left), Err(NetworkError::DimensionMismatch));
    assert_eq!(w.snake.d, Direction::UP);
    let w0 = Matrix::from_vec(3, 8, vec![0i64; 24]).unwrap();
    let b0 = Matrix::from_vec(3, 1, vec![0i64; 3]).unwrap();
    let net = Network::from_parameters(vec![8, 3], vec![w0], vec![b0], 1, activation()).unwrap();
    let mut w = world(&[(5, 5), (5, 6)], Direction::UP, (0, 0), net);
    assert_eq!(w.pressed(Key::Left), Err(NetworkError::DimensionMismatch));
    assert_eq!(w.network.biases()[0].data(), &vec![0, 0, 0]);
}

#[test]
fn update_moves_scores_and_feeds() {
    let mut w = world(&[(5, 5), (5, 6)], Direction::UP, (5, 4), brain(8, [0; 4], [0, 9, 0, 0]));
    assert_eq!(w.update(), Ok(true));
    assert_eq!(parts(&w.snake), vec![(5, 4), (5, 5)]);
    assert!(w.just_eaten);
    assert_eq!(w.score, 0);
    assert_eq!((w.suggested_direction.x, w.suggested_direction.y), (4, 4));
    assert!(!w.snake.is_collide(w.food.x, w.food.y));
    assert!(w.food.x < 10 && w.food.y < 10);
    w.food = Food { x: 0, y: 0 };
    assert_eq!(w.update(), Ok(true));
    assert_eq!(parts(&w.snake), vec![(5, 3), (5, 4), (5, 5)]);
    assert!(!w.just_eaten);
    assert_eq!(w.score, 1);
    assert_eq!(w.food, Food { x: 0, y: 0 });
}

#[test]
fn update_reports_the_end_of_the_game() {
    let mut w = world(&[(5, 0), (5, 1)], Direction::UP, (0, 0), brain(8, [0; 4], [0, 9, 0, 0]));
    w.just_eaten = true;
    w.score = 3;
    assert_eq!(w.update(), Ok(false));
    assert_eq!(parts(&w.snake), vec![(5, 0), (5, 1)]);
    assert_eq!(w.score, 3);
    assert!(w.just_eaten);
    assert_eq!((w.suggested_direction.x, w.suggested_direction.y), (4, 0));
}

#[test]
fn update_needs_eight_inputs() {
    let mut w = world(&[(5, 5), (5, 6)], Direction::UP, (5, 4), brain(2, [0; 4], [0; 4]));
    assert_eq!(w.update(), Err(NetworkError::DimensionMismatch));
    assert_eq!(parts(&w.snake), vec![(5, 5), (5, 6)]);
}

#[test]
fn can_move_tells_when_a_step_is_defined() {
    assert!(snake(&[(5, 5)], Direction::DOWN).can_move(10, 10));
    assert!(!snake(&[(5, 5)], Direction::DOWN).can_move(10, 0));
    assert!(!snake(&[(5, u32::MAX)], Direction::DOWN).can_move(10, 10));
    assert!(!snake(&[(u32::MAX, 5)], Direction::RIGHT).can_move(10, 10));
    assert!(!snake(&[(5, 5)], Direction::RIGHT).can_move(0, 10));
    assert!(snake(&[(5, 5)], Direction::UP).can_move(0, 0));
    assert!(!snake(&[], Direction::UP).can_move(10, 10));
}

#[test]
fn fits_screen_tells_when_pixels_are_in_range() {
    assert!(fits_screen(9, 9, 40));
    assert!(!fits_screen(u32::MAX, 0, 2));
    assert!(!fits_screen(0, 1 << 31, 2));
}

#[test]
fn corners_scale_cells_to_pixels() {
    assert_eq!(corner(3, 7, 40), (120, 280));
    let s = snake(&[(5, 5), (5, 6)], Direction::UP);
    assert_eq!(s.corners(), vec![(200, 200), (200, 240)]);
}
