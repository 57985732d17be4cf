use numbers_game::game::{Game, GameDifficulty, GameMode, GameState};
use numbers_game::level::Level;
use numbers_game::localization::Locale;

fn fresh_game(mode: GameMode) -> Game {
    let locales = vec![Locale::new("en".to_string(), "English".to_string(), Vec::new())];
    Game::new(mode, None, locales)
}

fn center_of(level: &Level, index: usize) -> (i64, i64) {
    let r = level.buttons[index];
    (r.x + r.width / 2, r.y + r.height / 2)
}

fn tile_with_number(level: &Level, number: i32) -> usize {
    for (i, n) in level.numbers.iter().enumerate() {
        if *n == number {
            return i;
        }
    }
    panic!("number {} not on the grid", number);
}

/// A frame far away from every rectangle, without a click.
fn idle_frame(level: &mut Level, game: &mut Game, now_ms: u64) {
    level.process_controller(-100, -100, false, game, now_ms);
}

fn started_level(game: &mut Game) -> Level {
    let mut level = Level::new(game);
    game.set_state(GameState::Game);
    level.start(game, 1_000);
    // One frame to let the timer pass its grace delay and activate.
    idle_frame(&mut level, game, 2_000);
    assert!(level.timer.is_active());
    level
}

#[test]
fn grid_geometry_for_default_window() {
    let game = fresh_game(GameMode::Release);
    let level = Level::new(&game);
    assert_eq!(level.buttons.len(), 56);
    // 1600 wide: the horizontal gap is (1600 - 1400) / 7 = 28, so the
    // first column starts at (1600 - 8 * 128 + 28) / 2 = 302.
    // 900 high: the raw vertical gap is negative and clamps to 20, so
    // the first row starts at (900 - 7 * 80 + 20) / 2 = 180.
    assert_eq!(level.buttons[0].x, 302);
    assert_eq!(level.buttons[0].y, 180);
    assert_eq!(level.buttons[0].width, 100);
    assert_eq!(level.buttons[0].height, 60);
    assert_eq!(level.buttons[1].x, 302 + 128);
    assert_eq!(level.buttons[8].y, 180 + 80);
    // The in-game exit button sits at the top right corner.
    assert_eq!(level.btn_game_exit.rec.x, 1440);
    assert_eq!(level.btn_game_exit.rec.y, 80);
}

#[test]
fn layout_is_idempotent() {
    let game = fresh_game(GameMode::Release);
    let mut level = Level::new(&game);
    level.update_btn_positions(&game);
    let first = level.buttons.clone();
    let exit = level.btn_game_exit.rec;
    let try_again = level.btn_after_game_try_again.rec;
    level.update_btn_positions(&game);
    assert_eq!(level.buttons, first);
    assert_eq!(level.btn_game_exit.rec, exit);
    assert_eq!(level.btn_after_game_try_again.rec, try_again);
}

#[test]
fn start_shuffles_a_full_permutation() {
    let mut game = fresh_game(GameMode::Release);
    let mut level = Level::new(&mut game);
    assert!(!level.is_started());
    level.start(&game, 1_000);
    assert!(level.is_started());
    let mut sorted = level.numbers.clone();
    sorted.sort();
    let expected: Vec<i32> = (1..=56).collect();
    assert_eq!(sorted, expected);
    assert_eq!(level.score, 0);
    assert_eq!(level.fails, 0);
}

#[test]
fn correct_clicks_raise_the_score() {
    let mut game = fresh_game(GameMode::Release);
    let mut level = started_level(&mut game);
    let first = tile_with_number(&level, 1);
    let (cx, cy) = center_of(&level, first);
    level.process_controller(cx, cy, true, &mut game, 3_000);
    assert_eq!(level.score, 1);
    assert_eq!(level.fails, 0);
    assert_eq!(level.correct_buttons, vec![first as i32]);
}

#[test]
fn full_round_of_correct_clicks_wins() {
    let mut game = fresh_game(GameMode::Release);
    let mut level = started_level(&mut game);
    let mut now = 3_000;
    for number in 1..=56 {
        assert_eq!(game.get_state(), GameState::Game);
        let i = tile_with_number(&level, number);
        let (cx, cy) = center_of(&level, i);
        level.process_controller(cx, cy, true, &mut game, now);
        now += 100;
    }
    assert_eq!(level.score, 56);
    // The win is observed at the start of the following frame.
    idle_frame(&mut level, &mut game, now);
    assert_eq!(game.get_state(), GameState::Win);
    assert!(!level.timer.is_active());
    assert!(!level.timer.is_over(now + 1_000_000));
    assert!(level.is_over());
}

#[test]
fn one_misclick_counts_no_fail_two_in_a_row_count_one() {
    let mut game = fresh_game(GameMode::Release);
    let mut level = started_level(&mut game);
    let wrong1 = tile_with_number(&level, 5);
    let wrong2 = tile_with_number(&level, 7);
    let (x1, y1) = center_of(&level, wrong1);
    level.process_controller(x1, y1, true, &mut game, 3_000);
    assert_eq!(level.fails, 0);
    assert_eq!(level.incorrect_btn_index, wrong1 as i32);
    let (x2, y2) = center_of(&level, wrong2);
    level.process_controller(x2, y2, true, &mut game, 3_100);
    assert_eq!(level.fails, 1);
    assert_eq!(level.incorrect_btn_index, wrong2 as i32);
}

#[test]
fn correct_click_clears_the_misclick_highlight() {
    let mut game = fresh_game(GameMode::Release);
    let mut level = started_level(&mut game);
    let wrong = tile_with_number(&level, 9);
    let (wx, wy) = center_of(&level, wrong);
    level.process_controller(wx, wy, true, &mut game, 3_000);
    let right = tile_with_number(&level, 1);
    let (rx, ry) = center_of(&level, right);
    level.process_controller(rx, ry, true, &mut game, 3_100);
    assert_eq!(level.incorrect_btn_index, -1);
    // The next misclick is again a first one and counts no fail.
    let wrong2 = tile_with_number(&level, 12);
    let (x2, y2) = center_of(&level, wrong2);
    level.process_controller(x2, y2, true, &mut game, 3_200);
    assert_eq!(level.fails, 0);
}

#[test]
fn expired_timer_loses_the_round() {
    // Debug mode, Hard difficulty: a ten-second round.
    let locales = vec![Locale::new("en".to_string(), "English".to_string(), Vec::new())];
    let mut game = Game::new(GameMode::Debug, Some((0, 2)), locales);
    assert_eq!(game.get_difficulty(), GameDifficulty::Hard);
    let mut level = started_level(&mut game);
    idle_frame(&mut level, &mut game, 10_999);
    assert_eq!(game.get_state(), GameState::Game);
    idle_frame(&mut level, &mut game, 11_000);
    assert_eq!(game.get_state(), GameState::Lose);
    assert!(!level.timer.is_active());
    assert!(level.is_over());
}

#[test]
fn exit_button_returns_to_menu_and_pauses() {
    let mut game = fresh_game(GameMode::Release);
    let mut level = started_level(&mut game);
    let exit = level.btn_game_exit.rec;
    level.process_controller(exit.x + 5, exit.y + 5, true, &mut game, 3_000);
    assert_eq!(game.get_state(), GameState::Menu);
    // The next frame, now at the menu, pauses the countdown.
    idle_frame(&mut level, &mut game, 4_000);
    assert!(!level.timer.is_active());
    assert!(!level.is_over());
}

#[test]
fn try_again_restarts_the_round() {
    let locales = vec![Locale::new("en".to_string(), "English".to_string(), Vec::new())];
    let mut game = Game::new(GameMode::Debug, Some((0, 2)), locales);
    let mut level = started_level(&mut game);
    idle_frame(&mut level, &mut game, 20_000);
    assert_eq!(game.get_state(), GameState::Lose);
    let try_again = level.btn_after_game_try_again.rec;
    level.process_controller(try_again.x + 5, try_again.y + 5, true, &mut game, 21_000);
    assert_eq!(game.get_state(), GameState::Game);
    assert_eq!(level.score, 0);
    assert_eq!(level.fails, 0);
    assert!(level.is_started());
    assert!(!level.is_over());
}

#[test]
fn after_game_exit_returns_to_menu() {
    let locales = vec![Locale::new("en".to_string(), "English".to_string(), Vec::new())];
    let mut game = Game::new(GameMode::Debug, Some((0, 2)), locales);
    let mut level = started_level(&mut game);
    idle_frame(&mut level, &mut game, 20_000);
    assert_eq!(game.get_state(), GameState::Lose);
    let exit = level.btn_after_game_exit.rec;
    level.process_controller(exit.x + 5, exit.y + 5, true, &mut game, 21_000);
    assert_eq!(game.get_state(), GameState::Menu);
}

#[test]
fn hover_marks_only_the_tile_under_the_pointer() {
    let mut game = fresh_game(GameMode::Release);
    let mut level = started_level(&mut game);
    let (cx, cy) = center_of(&level, 3);
    level.process_controller(cx, cy, false, &mut game, 3_000);
    assert_eq!(level.active_btn_index, 3);
    level.process_controller(-100, -100, false, &mut game, 3_100);
    assert_eq!(level.active_btn_index, -1);
}

#[test]
fn timer_durations_follow_the_difficulty_table() {
    fn game_with(mode: GameMode, ordinal: i32) -> Game {
        let locales = vec![Locale::new("en".to_string(), "English".to_string(), Vec::new())];
        Game::new(mode, Some((0, ordinal)), locales)
    }
    assert_eq!(Level::get_timer_duration(&game_with(GameMode::Release, 0)), 180);
    assert_eq!(Level::get_timer_duration(&game_with(GameMode::Release, 1)), 120);
    assert_eq!(Level::get_timer_duration(&game_with(GameMode::Release, 2)), 120);
    assert_eq!(Level::get_timer_duration(&game_with(GameMode::Debug, 0)), 180);
    assert_eq!(Level::get_timer_duration(&game_with(GameMode::Debug, 1)), 60);
    assert_eq!(Level::get_timer_duration(&game_with(GameMode::Debug, 2)), 10);
}
