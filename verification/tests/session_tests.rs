use numbers_game::game::{
    apply_window_resize, Game, GameDifficulty, GameMode, GameState, SessionAction, SessionInput,
};
use numbers_game::level::Level;
use numbers_game::localization::Locale;
use numbers_game::menu::{Menu, MenuState};

fn fresh_game() -> Game {
    let locales = vec![
        Locale::new("en".to_string(), "English".to_string(), Vec::new()),
        Locale::new("de".to_string(), "Deutsch".to_string(), Vec::new()),
    ];
    Game::new(GameMode::Release, Some((1, 2)), locales)
}

fn no_input() -> SessionInput {
    SessionInput {
        window_resized: false,
        new_width: 0,
        new_height: 0,
        fullscreen_key_released: false,
        cancel_key_released: false,
    }
}

fn world() -> (Game, Menu, Level) {
    let game = fresh_game();
    let menu = Menu::new(&game, true, &vec![(100, 60), (100, 60)]);
    let level = Level::new(&game);
    (game, menu, level)
}

#[test]
fn session_restores_persisted_difficulty_and_locale() {
    // The config carried locale 1 and difficulty ordinal 2 (Hard).
    let game = fresh_game();
    assert_eq!(game.get_difficulty(), GameDifficulty::Hard);
    assert_eq!(game.get_locale().get_code().as_str(), "de");
    assert_eq!(game.get_state(), GameState::Menu);
}

#[test]
fn session_defaults_without_a_config() {
    let locales = vec![Locale::new("en".to_string(), "English".to_string(), Vec::new())];
    let game = Game::new(GameMode::Release, None, locales);
    assert_eq!(game.get_difficulty(), GameDifficulty::Easy);
    assert_eq!(game.get_locale().get_code().as_str(), "en");
    assert!(game.get_settings().is_fullscreen);
    assert!(!game.get_settings().is_fps_visible);
}

#[test]
fn out_of_range_persisted_values_fall_back() {
    let locales = vec![Locale::new("en".to_string(), "English".to_string(), Vec::new())];
    let game = Game::new(GameMode::Release, Some((5, 9)), locales);
    assert_eq!(game.get_locale().get_code().as_str(), "en");
    assert_eq!(game.get_difficulty(), GameDifficulty::Easy);
    let locales2 = vec![Locale::new("en".to_string(), "English".to_string(), Vec::new())];
    let game2 = Game::new(GameMode::Release, Some((-3, 1)), locales2);
    assert_eq!(game2.get_locale().get_code().as_str(), "en");
    assert_eq!(game2.get_difficulty(), GameDifficulty::Medium);
}

#[test]
fn config_contents_round_trip_through_the_parser() {
    let game = fresh_game();
    let bytes = game.config_file_contents();
    assert_eq!(bytes, b"locale = 1\ndifficulty = 2".to_vec());
    let reparsed = numbers_game::config::parse_config(&bytes);
    assert_eq!(reparsed, (1, 2));
}

#[test]
fn difficulty_cycle_is_closed() {
    let mut game = fresh_game();
    let start = game.get_difficulty();
    let mut seen = vec![start];
    for _ in 0..3 {
        let d = game.get_difficulty();
        game.change_difficulty(d);
        seen.push(game.get_difficulty());
    }
    assert_eq!(seen[0], GameDifficulty::Hard);
    assert_eq!(seen[1], GameDifficulty::Easy);
    assert_eq!(seen[2], GameDifficulty::Medium);
    assert_eq!(seen[3], GameDifficulty::Hard);
    assert_ne!(seen[1], seen[0]);
    assert_ne!(seen[2], seen[1]);
    assert_ne!(seen[3], seen[2]);
}

#[test]
fn difficulty_ordinals_and_keys() {
    assert_eq!(GameDifficulty::Easy.ordinal(), 0);
    assert_eq!(GameDifficulty::Medium.ordinal(), 1);
    assert_eq!(GameDifficulty::Hard.ordinal(), 2);
    assert_eq!(GameDifficulty::from_ordinal(2), GameDifficulty::Hard);
    assert_eq!(GameDifficulty::from_ordinal(1), GameDifficulty::Medium);
    assert_eq!(GameDifficulty::from_ordinal(0), GameDifficulty::Easy);
    assert_eq!(GameDifficulty::from_ordinal(7), GameDifficulty::Easy);
    assert_eq!(GameDifficulty::Hard.repr(), "difficulty_hard");
}

#[test]
fn resize_relays_menu_and_grid_out() {
    let (mut game, mut menu, mut level) = world();
    let input = SessionInput {
        window_resized: true,
        new_width: 800,
        new_height: 600,
        fullscreen_key_released: false,
        cancel_key_released: false,
    };
    let action = game.process_controller(input, &mut menu, &mut level);
    assert_eq!(action, SessionAction::Idle);
    assert_eq!(game.get_window_width(), 800);
    assert_eq!(game.get_window_height(), 600);
    // Four menu entries centered in the new window.
    assert_eq!(menu.items[0].btn.x, 200);
    assert_eq!(menu.items[0].btn.y, 80);
    // The grid clamps both gaps to their minimum in so small a window.
    // x0 = (800 - 8 * 120 + 20) / 2 = -70, y0 = (600 - 7 * 80 + 20) / 2 = 30.
    assert_eq!(level.buttons[0].x, -70);
    assert_eq!(level.buttons[0].y, 30);
    assert_eq!(level.btn_game_exit.rec.x, 640);
}

#[test]
fn resizing_twice_to_the_same_size_changes_nothing() {
    let (mut game, mut menu, mut level) = world();
    apply_window_resize(&mut game, &mut menu, &mut level, 1024, 768);
    let items = menu.items.clone();
    let grid = level.buttons.clone();
    apply_window_resize(&mut game, &mut menu, &mut level, 1024, 768);
    assert_eq!(menu.items, items);
    assert_eq!(level.buttons, grid);
}

#[test]
fn fullscreen_key_flips_the_switch_and_asks_the_app() {
    let (mut game, mut menu, mut level) = world();
    let mut input = no_input();
    input.fullscreen_key_released = true;
    assert!(game.get_settings().is_fullscreen);
    let action = game.process_controller(input, &mut menu, &mut level);
    assert_eq!(action, SessionAction::ApplyFullscreen);
    assert!(!game.get_settings().is_fullscreen);
}

#[test]
fn cancel_key_dismisses_help_first() {
    let (mut game, mut menu, mut level) = world();
    menu.set_state(MenuState::Help);
    let mut input = no_input();
    input.cancel_key_released = true;
    let action = game.process_controller(input, &mut menu, &mut level);
    assert_eq!(action, SessionAction::Idle);
    assert_eq!(menu.get_state(), MenuState::Primary);
    assert_eq!(game.get_state(), GameState::Menu);
}

#[test]
fn cancel_key_leaves_the_round_for_the_menu() {
    let (mut game, mut menu, mut level) = world();
    game.set_state(GameState::Game);
    level.start(&game, 1_000);
    let mut input = no_input();
    input.cancel_key_released = true;
    let action = game.process_controller(input, &mut menu, &mut level);
    assert_eq!(action, SessionAction::Idle);
    assert_eq!(game.get_state(), GameState::Menu);
}

#[test]
fn cancel_key_at_the_menu_asks_to_quit() {
    let (mut game, mut menu, mut level) = world();
    let mut input = no_input();
    input.cancel_key_released = true;
    let action = game.process_controller(input, &mut menu, &mut level);
    assert_eq!(action, SessionAction::Quit);
}

#[test]
fn set_locale_picks_by_code_and_ignores_unknown_codes() {
    let mut game = fresh_game();
    game.set_locale("en");
    assert_eq!(game.get_locale().get_code().as_str(), "en");
    game.set_locale("fr");
    assert_eq!(game.get_locale().get_code().as_str(), "en");
    game.set_locale("de");
    assert_eq!(game.get_locale().get_code().as_str(), "de");
}

#[test]
fn fullscreen_sizes_are_recorded_for_the_app() {
    let mut game = fresh_game();
    game.set_fullscreen_sizes(2560, 1440);
    game.toggle_fullscreen();
    assert!(!game.get_settings().is_fullscreen);
    game.toggle_fullscreen();
    assert!(game.get_settings().is_fullscreen);
}

#[test]
fn resize_keeps_menu_titles_and_highlights() {
    let (mut game, mut menu, mut level) = world();
    // Highlight the second entry, then resize: the highlight stays.
    let r = menu.items[1].btn;
    menu.process_controller(r.x + 5, r.y + 5, false, &mut game, &mut level, 1_000);
    let titles_before: Vec<_> = menu.items.iter().map(|i| i.title).collect();
    let colors_before: Vec<_> = menu.items.iter().map(|i| i.color).collect();
    apply_window_resize(&mut game, &mut menu, &mut level, 1024, 768);
    let titles_after: Vec<_> = menu.items.iter().map(|i| i.title).collect();
    let colors_after: Vec<_> = menu.items.iter().map(|i| i.color).collect();
    assert_eq!(titles_before, titles_after);
    assert_eq!(colors_before, colors_after);
}

#[test]
fn locale_list_can_be_borrowed_mutably() {
    let mut game = fresh_game();
    assert_eq!(game.get_all_locales().len(), 2);
    let locales = game.get_all_locales_mut();
    locales.push(Locale::new("uk".to_string(), "Ukrainian".to_string(), Vec::new()));
    assert_eq!(game.get_all_locales().len(), 3);
}
