use rand::rngs::StdRng;
use rand::SeedableRng;
use snake::food::{food_at_cell, generate_random_items, items_from_cells, FoodItem};
use snake::game::{find_food, Game, Input};
use snake::geometry::{is_in_arena, step, Direction, Point};
use snake::snake::{Segment, Snake};

fn seg(x: i32, y: i32, dir: Direction) -> Segment {
    Segment { pos: Point { x, y }, dir }
}

fn food(x: i32, y: i32) -> FoodItem {
    FoodItem { pos: Point { x, y } }
}

fn positions(s: &Snake) -> Vec<(i32, i32)> {
    s.segments.iter().map(|b| (b.pos.x, b.pos.y)).collect()
}

fn game_with(segments: Vec<Segment>, items: Vec<FoodItem>) -> Game {
    Game {
        snake: Snake { segments },
        items,
        score: 0,
        is_game_over: false,
        rng: StdRng::seed_from_u64(3),
    }
}

fn check_batch(items: &[FoodItem]) {
    assert!(items.len() >= 5 && items.len() <= 14);
    for it in items {
        assert!(it.pos.x % 8 == 0 && it.pos.y % 8 == 0);
        assert!(it.pos.x >= 0 && it.pos.x <= 504);
        assert!(it.pos.y >= 0 && it.pos.y <= 504);
    }
}

#[test]
fn straight_move_keeps_length_and_directions() {
    let mut s = Snake {
        segments: vec![seg(8, 504, Direction::Up), seg(8, 496, Direction::Up), seg(8, 488, Direction::Up)],
    };
    s.advance(false);
    assert_eq!(positions(&s), vec![(8, 496), (8, 488), (8, 480)]);
    assert!(s.segments.iter().all(|b| b.dir == Direction::Up));
    assert_eq!(s.len(), 3);
}

#[test]
fn head_on_food_scores_and_grows() {
    let mut g = game_with(
        vec![seg(8, 496, Direction::Up), seg(8, 504, Direction::Up), seg(8, 512, Direction::Up)],
        vec![food(8, 496), food(104, 200)],
    );
    g.update();
    assert_eq!(g.score, 1);
    assert_eq!(g.items, vec![food(104, 200)]);
    assert_eq!(g.snake.len(), 4);
    assert_eq!(positions(&g.snake), vec![(8, 488), (8, 496), (8, 504), (8, 512)]);
    assert_eq!(g.snake.segments[3].dir, Direction::Up);
    assert!(!g.is_game_over);
    assert!(g.is_well_formed());
}

#[test]
fn head_left_of_arena_ends_game() {
    for y in [0, 96, 504, 512] {
        let mut g = game_with(vec![seg(-8, y, Direction::Left), seg(0, y, Direction::Left)], vec![food(200, 200)]);
        g.update();
        assert!(g.is_game_over);
        assert_eq!(positions(&g.snake), vec![(-8, y), (0, y)]);
        assert_eq!(g.score, 0);
    }
}

#[test]
fn head_below_arena_ends_game() {
    let mut g = game_with(vec![seg(8, 512, Direction::Down), seg(8, 504, Direction::Down)], vec![food(8, 8)]);
    g.update();
    assert!(g.is_game_over);
    assert_eq!(positions(&g.snake), vec![(8, 512), (8, 504)]);
}

#[test]
fn tick_without_food_keeps_length_and_score() {
    let mut g = game_with(
        vec![seg(96, 200, Direction::Right), seg(88, 200, Direction::Right)],
        vec![food(8, 8)],
    );
    g.update();
    assert_eq!(g.snake.len(), 2);
    assert_eq!(g.score, 0);
    assert_eq!(positions(&g.snake), vec![(104, 200), (96, 200)]);
    assert_eq!(g.items, vec![food(8, 8)]);
}

#[test]
fn body_follows_turn_one_tick_late() {
    let mut g = game_with(
        vec![seg(96, 200, Direction::Up), seg(96, 208, Direction::Up), seg(96, 216, Direction::Up)],
        vec![food(8, 8)],
    );
    g.keypress(Input::Right);
    assert_eq!(g.snake.segments[0].dir, Direction::Right);
    g.update();
    assert_eq!(positions(&g.snake), vec![(104, 200), (96, 200), (96, 208)]);
    assert_eq!(g.snake.segments[1].dir, Direction::Right);
    assert_eq!(g.snake.segments[2].dir, Direction::Up);
    g.update();
    assert_eq!(positions(&g.snake), vec![(112, 200), (104, 200), (96, 200)]);
    assert!(g.snake.segments.iter().all(|b| b.dir == Direction::Right));
}

#[test]
fn eating_last_food_brings_new_batch() {
    let mut g = game_with(vec![seg(16, 16, Direction::Down), seg(16, 8, Direction::Down)], vec![food(16, 16)]);
    g.update();
    assert_eq!(g.score, 1);
    assert_eq!(g.snake.len(), 3);
    check_batch(&g.items);
}

#[test]
fn only_first_of_equal_food_is_eaten() {
    let mut g = game_with(
        vec![seg(16, 16, Direction::Down), seg(16, 8, Direction::Down)],
        vec![food(40, 40), food(16, 16), food(16, 16)],
    );
    assert_eq!(find_food(&g.items, Point { x: 16, y: 16 }), Some(1));
    g.update();
    assert_eq!(g.score, 1);
    assert_eq!(g.items, vec![food(40, 40), food(16, 16)]);
}

#[test]
fn finished_game_does_not_change() {
    let mut g = game_with(vec![seg(-8, 40, Direction::Left), seg(0, 40, Direction::Left)], vec![food(8, 8)]);
    g.update();
    assert!(g.is_game_over);
    g.update();
    g.update();
    assert!(g.is_game_over);
    assert_eq!(positions(&g.snake), vec![(-8, 40), (0, 40)]);
    assert_eq!(g.items, vec![food(8, 8)]);
}

#[test]
fn generated_batches_are_valid() {
    let mut seen_other_than_origin = false;
    for seed in 0..40u64 {
        let mut rng = StdRng::seed_from_u64(seed);
        let items = generate_random_items(&mut rng);
        check_batch(&items);
        if items.iter().any(|it| it.pos != Point { x: 0, y: 0 }) {
            seen_other_than_origin = true;
        }
    }
    assert!(seen_other_than_origin);
}

#[test]
fn create_gives_fresh_game() {
    let g = Game::create(StdRng::seed_from_u64(11));
    assert_eq!(g.score, 0);
    assert!(!g.is_game_over);
    assert_eq!(positions(&g.snake), vec![(8, 504), (8, 512), (8, 520)]);
    assert!(g.snake.segments.iter().all(|b| b.dir == Direction::Up));
    check_batch(&g.items);
    assert!(g.is_well_formed());
}

#[test]
fn restart_resets_everything() {
    let mut g = game_with(vec![seg(-8, 40, Direction::Left), seg(0, 40, Direction::Left)], vec![food(8, 8)]);
    g.score = 7;
    g.update();
    assert!(g.is_game_over);
    g.keypress(Input::Restart);
    assert_eq!(g.score, 0);
    assert!(!g.is_game_over);
    assert_eq!(g.snake.len(), 3);
    assert_eq!(g.snake.head(), Point { x: 8, y: 504 });
    check_batch(&g.items);
}

#[test]
fn arrows_set_head_direction_and_other_keys_are_ignored() {
    let mut g = Game::create(StdRng::seed_from_u64(5));
    let items = g.items.clone();
    g.keypress(Input::Left);
    assert_eq!(g.snake.segments[0].dir, Direction::Left);
    g.keypress(Input::Down);
    assert_eq!(g.snake.segments[0].dir, Direction::Down);
    g.keypress(Input::Other);
    assert_eq!(g.snake.segments[0].dir, Direction::Down);
    g.keypress(Input::Up);
    assert_eq!(g.snake.segments[0].dir, Direction::Up);
    assert_eq!(g.snake.segments[1].dir, Direction::Up);
    assert_eq!(g.items, items);
    assert_eq!(g.score, 0);
}

#[test]
fn new_snake_stands_in_a_column() {
    assert_eq!(positions(&Snake::new(3)), vec![(8, 504), (8, 512), (8, 520)]);
    assert_eq!(Snake::new(0).len(), 0);
    assert_eq!(Snake::new(-2).len(), 0);
}

#[test]
fn growing_appends_old_tail() {
    let mut s = Snake { segments: vec![seg(40, 40, Direction::Left), seg(48, 40, Direction::Left), seg(48, 48, Direction::Up)] };
    s.advance(true);
    assert_eq!(positions(&s), vec![(32, 40), (40, 40), (48, 40), (48, 48)]);
    assert_eq!(s.segments[3].dir, Direction::Up);
    assert_eq!(s.segments[2].dir, Direction::Left);
}

#[test]
fn empty_snake_does_not_move() {
    let mut s = Snake { segments: vec![] };
    s.advance(true);
    assert_eq!(s.len(), 0);
}

#[test]
fn steps_and_bounds() {
    assert_eq!(step(Point { x: 8, y: 8 }, Direction::Up), Point { x: 8, y: 0 });
    assert_eq!(step(Point { x: 8, y: 8 }, Direction::Left), Point { x: 0, y: 8 });
    assert_eq!(Direction::Down.delta(), (0, 8));
    assert_eq!(Direction::Right.delta(), (8, 0));
    assert!(is_in_arena(Point { x: 0, y: 511 }));
    assert!(!is_in_arena(Point { x: 512, y: 0 }));
    assert!(!is_in_arena(Point { x: 0, y: -1 }));
    assert_eq!(food_at_cell(63, 2).pos, Point { x: 504, y: 16 });
}

#[test]
fn inconsistent_state_is_detected() {
    let g = Game {
        snake: Snake { segments: vec![seg(8, 504, Direction::Up), seg(8, 496, Direction::Up)] },
        items: vec![],
        score: 0,
        is_game_over: false,
        rng: StdRng::seed_from_u64(1),
    };
    assert!(!g.is_well_formed());
    let h = Game {
        snake: Snake { segments: vec![seg(8, 504, Direction::Up)] },
        items: vec![food(3, 8)],
        score: 0,
        is_game_over: false,
        rng: StdRng::seed_from_u64(1),
    };
    assert!(!h.is_well_formed());
}

#[test]
fn tick_moves_column_heading_up() {
    let mut g = game_with(
        vec![seg(8, 504, Direction::Up), seg(8, 496, Direction::Up), seg(8, 488, Direction::Up)],
        vec![food(256, 256)],
    );
    g.update();
    assert_eq!(positions(&g.snake), vec![(8, 496), (8, 488), (8, 480)]);
    assert!(g.snake.segments.iter().all(|b| b.dir == Direction::Up));
    assert_eq!(g.score, 0);
    assert_eq!(g.items, vec![food(256, 256)]);
    assert!(!g.is_game_over);
}

#[test]
fn tick_eats_food_under_head() {
    let mut g = game_with(
        vec![seg(8, 496, Direction::Up), seg(8, 488, Direction::Up), seg(8, 480, Direction::Up)],
        vec![food(8, 496), food(256, 256)],
    );
    g.update();
    assert_eq!(g.score, 1);
    assert_eq!(g.items, vec![food(256, 256)]);
    assert_eq!(positions(&g.snake), vec![(8, 488), (8, 480), (8, 472), (8, 480)]);
    assert!(g.snake.segments.iter().all(|b| b.dir == Direction::Up));
    assert!(!g.is_game_over);
}

#[test]
fn head_left_of_arena_ends_game_at_any_row() {
    for y in [i32::MIN, -1000, 7, 100_000, i32::MAX] {
        let mut g = game_with(vec![seg(-8, y, Direction::Up), seg(40, 40, Direction::Down)], vec![food(8, 8)]);
        g.update();
        assert!(g.is_game_over);
        assert_eq!(positions(&g.snake), vec![(-8, y), (40, 40)]);
        assert_eq!(g.items, vec![food(8, 8)]);
    }
}

#[test]
fn items_follow_cells_in_order() {
    let items = items_from_cells(&vec![(0, 0), (63, 1), (5, 63), (5, 63)]);
    assert_eq!(items, vec![food(0, 0), food(504, 8), food(40, 504), food(40, 504)]);
    assert!(items_from_cells(&vec![]).is_empty());
}
