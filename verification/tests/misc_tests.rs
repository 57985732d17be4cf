use numbers_game::game::{Game, GameMode, GameState};
use numbers_game::localization::Locale;
use numbers_game::player::{Player, PlayerInput};
use numbers_game::utils::{div_floor, generate_numbers_array, vec_i32_contains, Rect, UiColor};

#[test]
fn div_floor_rounds_toward_negative_infinity() {
    assert_eq!(div_floor(7, 2), 3);
    assert_eq!(div_floor(-7, 2), -4);
    assert_eq!(div_floor(-6, 2), -3);
    assert_eq!(div_floor(-1, 7), -1);
    assert_eq!(div_floor(0, 5), 0);
    assert_eq!(div_floor(-141, 2), -71);
}

#[test]
fn rect_contains_the_left_and_top_edges_only() {
    let r = Rect { x: 10, y: 20, width: 100, height: 50 };
    assert!(r.contains(10, 20));
    assert!(r.contains(109, 69));
    assert!(!r.contains(110, 20));
    assert!(!r.contains(10, 70));
    assert!(!r.contains(9, 20));
}

#[test]
fn generated_numbers_are_a_permutation() {
    let v = generate_numbers_array(56);
    assert_eq!(v.len(), 56);
    let mut sorted = v.clone();
    sorted.sort();
    let expected: Vec<i32> = (1..=56).collect();
    assert_eq!(sorted, expected);
}

#[test]
fn generated_numbers_handle_small_lengths() {
    assert_eq!(generate_numbers_array(0), Vec::<i32>::new());
    assert_eq!(generate_numbers_array(1), vec![1]);
}

#[test]
fn vec_contains_finds_members_only() {
    let v = vec![3, 1, 4];
    assert!(vec_i32_contains(&v, 4));
    assert!(!vec_i32_contains(&v, 2));
    assert!(!vec_i32_contains(&Vec::new(), 0));
}

#[test]
fn locale_lookup_finds_the_last_pair_for_a_key() {
    let pairs = vec![
        ("title".to_string(), "Numbers".to_string()),
        ("menu_start".to_string(), "Play".to_string()),
        ("title".to_string(), "Numbers!".to_string()),
    ];
    let locale = Locale::new("en".to_string(), "English".to_string(), pairs);
    assert_eq!(locale.get("menu_start"), Some(&"Play".to_string()));
    assert_eq!(locale.get("title"), Some(&"Numbers!".to_string()));
    assert_eq!(locale.get("missing"), None);
    assert_eq!(locale.get_language().as_str(), "English");
}

#[test]
fn player_moves_by_speed_times_frame_time_while_playing() {
    let locales = vec![Locale::new("en".to_string(), "English".to_string(), Vec::new())];
    let mut game = Game::new(GameMode::Release, None, locales);
    let mut player = Player::new();
    let x0 = player.x_mpx;
    let y0 = player.y_mpx;
    assert_eq!(player.color, UiColor::Red);

    // At the menu nothing moves.
    let up = PlayerInput { up: true, down: false, left: false, right: false };
    player.process_player_controller(up, 100, &game);
    assert_eq!(player.y_mpx, y0);

    // While playing, 100 ms at 60 milli-pixels per millisecond move the
    // disc 6000 milli-pixels, six pixels.
    game.set_state(GameState::Game);
    player.process_player_controller(up, 100, &game);
    assert_eq!(player.y_mpx, y0 - 6_000);
    assert_eq!(player.x_mpx, x0);

    let right = PlayerInput { up: false, down: false, left: false, right: true };
    player.process_player_controller(right, 50, &game);
    assert_eq!(player.x_mpx, x0 + 3_000);

    // Opposite keys cancel out.
    let both = PlayerInput { up: true, down: true, left: false, right: false };
    let y1 = player.y_mpx;
    player.process_player_controller(both, 100, &game);
    assert_eq!(player.y_mpx, y1);
}
