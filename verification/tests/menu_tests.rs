use numbers_game::game::{Game, GameDifficulty, GameMode, GameState};
use numbers_game::level::Level;
use numbers_game::localization::Locale;
use numbers_game::menu::{Menu, MenuAction, MenuAllItems, MenuState};
use numbers_game::utils::UiColor;

fn fresh_game() -> Game {
    let locales = vec![
        Locale::new("en".to_string(), "English".to_string(), Vec::new()),
        Locale::new("de".to_string(), "Deutsch".to_string(), Vec::new()),
    ];
    Game::new(GameMode::Release, Some((0, 0)), locales)
}

fn flag_sizes() -> Vec<(i64, i64)> {
    vec![(100, 60), (100, 60)]
}

fn fresh_menu(game: &Game) -> Menu {
    Menu::new(game, true, &flag_sizes())
}

fn item_center(menu: &Menu, index: usize) -> (i64, i64) {
    let r = menu.items[index].btn;
    (r.x + r.width / 2, r.y + r.height / 2)
}

fn settings_center(menu: &Menu, index: usize) -> (i64, i64) {
    let r = menu.settings_items[index].btn;
    (r.x + r.width / 2, r.y + r.height / 2)
}

#[test]
fn primary_menu_geometry_for_default_window() {
    let game = fresh_game();
    let menu = fresh_menu(&game);
    assert_eq!(menu.get_state(), MenuState::Primary);
    assert_eq!(menu.items.len(), 4);
    assert_eq!(menu.settings_items.len(), 5);
    assert_eq!(menu.locale_items.len(), 0);
    // Four entries of height 80 with 40 between them span 440; centered
    // in 900 the first starts at 230, each 120 below the last; entries
    // are 400 wide, centered in 1600 at 600.
    assert_eq!(menu.items[0].btn.x, 600);
    assert_eq!(menu.items[0].btn.y, 230);
    assert_eq!(menu.items[1].btn.y, 350);
    // Settings entries with a description sit at 1600 / 8 * 7 - 400.
    assert_eq!(menu.settings_items[0].btn.x, 1000);
    // The Back entry has no description and is centered.
    assert_eq!(menu.settings_items[4].btn.x, 600);
}

#[test]
fn hovering_an_entry_highlights_only_it() {
    let mut game = fresh_game();
    let mut menu = fresh_menu(&game);
    let mut level = Level::new(&game);
    let (cx, cy) = item_center(&menu, 0);
    menu.process_controller(cx, cy, false, &mut game, &mut level, 1_000);
    assert_eq!(menu.items[0].color, UiColor::LightGreen);
    assert_eq!(menu.items[1].color, UiColor::LightGray);
    assert_eq!(menu.items[2].color, UiColor::LightGray);
    assert_eq!(menu.items[3].color, UiColor::LightGray);
}

#[test]
fn leaving_all_entries_resets_every_highlight() {
    let mut game = fresh_game();
    let mut menu = fresh_menu(&game);
    let mut level = Level::new(&game);
    let (cx, cy) = item_center(&menu, 2);
    menu.process_controller(cx, cy, false, &mut game, &mut level, 1_000);
    assert_eq!(menu.items[2].color, UiColor::LightGreen);
    // Off all entries: every highlight returns to the default.
    menu.process_controller(-50, -50, false, &mut game, &mut level, 1_100);
    for item in menu.items.iter() {
        assert_eq!(item.color, UiColor::LightGray);
    }
}

#[test]
fn start_opens_a_round_and_unlocks_continue() {
    let mut game = fresh_game();
    let mut menu = fresh_menu(&game);
    let mut level = Level::new(&game);
    let (cx, cy) = item_center(&menu, 0);
    let action = menu.process_controller(cx, cy, true, &mut game, &mut level, 1_000);
    assert_eq!(action, MenuAction::Idle);
    assert_eq!(game.get_state(), GameState::Game);
    assert!(level.is_started());
    assert_eq!(menu.items.len(), 5);
}

#[test]
fn continue_resumes_the_paused_round() {
    let mut game = fresh_game();
    let mut menu = fresh_menu(&game);
    let mut level = Level::new(&game);
    let (sx, sy) = item_center(&menu, 0);
    menu.process_controller(sx, sy, true, &mut game, &mut level, 1_000);
    // Activate, then leave for the menu through the in-game exit button.
    level.process_controller(-10, -10, false, &mut game, 2_000);
    let exit = level.btn_game_exit.rec;
    level.process_controller(exit.x + 5, exit.y + 5, true, &mut game, 3_000);
    level.process_controller(-10, -10, false, &mut game, 3_500);
    assert_eq!(game.get_state(), GameState::Menu);
    assert!(!level.timer.is_active());
    // The grown menu carries Continue as its second entry.
    let (cx, cy) = item_center(&menu, 1);
    let action = menu.process_controller(cx, cy, true, &mut game, &mut level, 5_000);
    assert_eq!(action, MenuAction::Idle);
    assert_eq!(game.get_state(), GameState::Game);
    // Resuming preserved the elapsed time; one frame re-activates.
    level.process_controller(-10, -10, false, &mut game, 6_000);
    assert!(level.timer.is_active());
}

#[test]
fn settings_and_help_switch_screens_and_back_returns() {
    let mut game = fresh_game();
    let mut menu = fresh_menu(&game);
    let mut level = Level::new(&game);
    let (cx, cy) = item_center(&menu, 1);
    menu.process_controller(cx, cy, true, &mut game, &mut level, 1_000);
    assert_eq!(menu.get_state(), MenuState::Settings);
    let (bx, by) = settings_center(&menu, 4);
    menu.process_controller(bx, by, true, &mut game, &mut level, 1_100);
    assert_eq!(menu.get_state(), MenuState::Primary);
    let (hx, hy) = item_center(&menu, 2);
    menu.process_controller(hx, hy, true, &mut game, &mut level, 1_200);
    assert_eq!(menu.get_state(), MenuState::Help);
}

#[test]
fn exit_entry_asks_to_quit() {
    let mut game = fresh_game();
    let mut menu = fresh_menu(&game);
    let mut level = Level::new(&game);
    let (cx, cy) = item_center(&menu, 3);
    let action = menu.process_controller(cx, cy, true, &mut game, &mut level, 1_000);
    assert_eq!(action, MenuAction::Quit);
    assert_eq!(game.get_state(), GameState::Menu);
}

#[test]
fn difficulty_entry_cycles_and_saves() {
    let mut game = fresh_game();
    let mut menu = fresh_menu(&game);
    let mut level = Level::new(&game);
    menu.set_state(MenuState::Settings);
    let (cx, cy) = settings_center(&menu, 0);
    let action = menu.process_controller(cx, cy, true, &mut game, &mut level, 1_000);
    assert_eq!(action, MenuAction::SaveConfig);
    assert_eq!(game.get_difficulty(), GameDifficulty::Medium);
    menu.process_controller(cx, cy, true, &mut game, &mut level, 1_100);
    assert_eq!(game.get_difficulty(), GameDifficulty::Hard);
    menu.process_controller(cx, cy, true, &mut game, &mut level, 1_200);
    assert_eq!(game.get_difficulty(), GameDifficulty::Easy);
}

#[test]
fn language_entry_advances_the_locale_and_saves() {
    let mut game = fresh_game();
    let mut menu = fresh_menu(&game);
    let mut level = Level::new(&game);
    menu.set_state(MenuState::Settings);
    let (cx, cy) = settings_center(&menu, 1);
    let action = menu.process_controller(cx, cy, true, &mut game, &mut level, 1_000);
    assert_eq!(action, MenuAction::SaveConfig);
    assert_eq!(game.get_locale().get_code().as_str(), "de");
    // Advancing past the last locale wraps around to the first.
    menu.process_controller(cx, cy, true, &mut game, &mut level, 1_100);
    assert_eq!(game.get_locale().get_code().as_str(), "en");
}

#[test]
fn fullscreen_entry_flips_the_switch_and_asks_the_app() {
    let mut game = fresh_game();
    let mut menu = fresh_menu(&game);
    let mut level = Level::new(&game);
    menu.set_state(MenuState::Settings);
    assert!(game.get_settings().is_fullscreen);
    let (cx, cy) = settings_center(&menu, 2);
    let action = menu.process_controller(cx, cy, true, &mut game, &mut level, 1_000);
    assert_eq!(action, MenuAction::ToggleFullscreen);
    assert!(!game.get_settings().is_fullscreen);
}

#[test]
fn fps_entry_toggles_the_overlay() {
    let mut game = fresh_game();
    let mut menu = fresh_menu(&game);
    let mut level = Level::new(&game);
    menu.set_state(MenuState::Settings);
    assert!(!game.get_settings().is_fps_visible);
    let (cx, cy) = settings_center(&menu, 3);
    let action = menu.process_controller(cx, cy, true, &mut game, &mut level, 1_000);
    assert_eq!(action, MenuAction::Idle);
    assert!(game.get_settings().is_fps_visible);
}

#[test]
fn menu_ignores_the_pointer_while_playing() {
    let mut game = fresh_game();
    let mut menu = fresh_menu(&game);
    let mut level = Level::new(&game);
    game.set_state(GameState::Game);
    level.start(&game, 1_000);
    let (cx, cy) = item_center(&menu, 3);
    let action = menu.process_controller(cx, cy, true, &mut game, &mut level, 2_000);
    assert_eq!(action, MenuAction::Idle);
    assert_eq!(game.get_state(), GameState::Game);
}

#[test]
fn first_run_shows_the_language_selector() {
    let game = fresh_game();
    let menu = Menu::new(&game, false, &flag_sizes());
    assert_eq!(menu.get_state(), MenuState::LanguageSelect);
    assert_eq!(menu.locale_items.len(), 2);
    // Two 100-wide flags 100 apart span 300; centered in 1600 the first
    // starts at 650, the second 200 further right; 60 high, centered in
    // 900 at 420.
    assert_eq!(menu.locale_items[0].btn.x, 650);
    assert_eq!(menu.locale_items[1].btn.x, 850);
    assert_eq!(menu.locale_items[0].btn.y, 420);
}

#[test]
fn hovering_a_flag_selects_its_locale() {
    let mut game = fresh_game();
    let mut menu = Menu::new(&game, false, &flag_sizes());
    let mut level = Level::new(&game);
    let r = menu.locale_items[1].btn;
    let action = menu.process_controller(r.x + 5, r.y + 5, false, &mut game, &mut level, 1_000);
    assert_eq!(action, MenuAction::Idle);
    assert_eq!(game.get_locale().get_code().as_str(), "de");
    assert_eq!(menu.locale_items[1].color, UiColor::LightGreen);
    assert_eq!(menu.locale_items[0].color, UiColor::White);
    assert_eq!(menu.get_state(), MenuState::LanguageSelect);
}

#[test]
fn releasing_on_a_flag_finishes_the_language_select() {
    let mut game = fresh_game();
    let mut menu = Menu::new(&game, false, &flag_sizes());
    let mut level = Level::new(&game);
    let r = menu.locale_items[1].btn;
    let action = menu.process_controller(r.x + 5, r.y + 5, true, &mut game, &mut level, 1_000);
    assert_eq!(action, MenuAction::FinishLanguageSelect);
    assert_eq!(game.get_locale().get_code().as_str(), "de");
    assert_eq!(menu.get_state(), MenuState::Primary);
    assert_eq!(menu.locale_items.len(), 0);
}

#[test]
fn entry_labels_use_stable_text_keys() {
    assert_eq!(MenuAllItems::Start.value(), "menu_start");
    assert_eq!(MenuAllItems::Back.value(), "menu_back");
    assert_eq!(MenuAllItems::Difficulty.value(), "");
    assert_eq!(MenuAllItems::Difficulty.description(), "menu_difficulty");
    assert_eq!(MenuAllItems::Start.description(), "");
    assert!(MenuAllItems::Fullscreen.has_description());
    assert!(!MenuAllItems::Exit.has_description());
}
