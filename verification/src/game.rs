use vstd::prelude::*;
use crate::config;
use crate::localization::Locale;
use crate::level::{has_layout, Level};
use crate::menu::{relaid_items, Menu, MenuState};
use crate::utils::{Button, MAX_COORD};

verus! {

/// Which duration table a session uses.
#[derive(Clone, Copy, Debug, PartialEq, Eq, Structural)]
pub enum GameMode {
    Debug,
    Release,
}

/// The top-level state: exactly one of these is active at a time.
#[derive(Clone, Copy, Debug, PartialEq, Eq, Structural)]
pub enum GameState {
    Menu,
    Game,
    Win,
    Lose,
}

/// The three difficulty levels; they cycle in this order.
#[derive(Clone, Copy, Debug, PartialEq, Eq, Structural)]
pub enum GameDifficulty {
    Easy,
    Medium,
    Hard,
}

/// The cyclic successor of a difficulty: Easy -> Medium -> Hard -> Easy.
pub open spec fn next_difficulty(d: GameDifficulty) -> GameDifficulty {
    match d {
        GameDifficulty::Easy => GameDifficulty::Medium,
        GameDifficulty::Medium => GameDifficulty::Hard,
        GameDifficulty::Hard => GameDifficulty::Easy,
    }
}

/// Advancing the difficulty three times returns to the start, and every
/// single advance moves somewhere else: the three levels form a closed
/// cycle with no other reachable value.
pub proof fn lemma_difficulty_cycle(d: GameDifficulty)
    ensures
        next_difficulty(next_difficulty(next_difficulty(d))) == d,
        next_difficulty(d) != d,
{
}

/// The number stored in the config file for each difficulty.
pub open spec fn spec_difficulty_ordinal(d: GameDifficulty) -> int {
    match d {
        GameDifficulty::Easy => 0,
        GameDifficulty::Medium => 1,
        GameDifficulty::Hard => 2,
    }
}

/// The difficulty a stored number denotes; anything unknown falls back
/// to Easy.
pub open spec fn spec_difficulty_from_ordinal(v: int) -> GameDifficulty {
    if v == 2 {
        GameDifficulty::Hard
    } else if v == 1 {
        GameDifficulty::Medium
    } else {
        GameDifficulty::Easy
    }
}

impl GameDifficulty {
    /// The text key under which a locale stores this difficulty's name.
    pub fn repr(&self) -> (r: &'static str)
        ensures
            r@ == spec_difficulty_key(*self),
    {
        match *self {
            GameDifficulty::Easy => "difficulty_easy",
            GameDifficulty::Medium => "difficulty_medium",
            GameDifficulty::Hard => "difficulty_hard",
        }
    }

    pub fn ordinal(&self) -> (r: i32)
        ensures
            r == spec_difficulty_ordinal(*self),
    {
        match *self {
            GameDifficulty::Easy => 0,
            GameDifficulty::Medium => 1,
            GameDifficulty::Hard => 2,
        }
    }

    pub fn from_ordinal(v: i32) -> (r: GameDifficulty)
        ensures
            r == spec_difficulty_from_ordinal(v as int),
    {
        if v == 2 {
            GameDifficulty::Hard
        } else if v == 1 {
            GameDifficulty::Medium
        } else {
            GameDifficulty::Easy
        }
    }
}

pub open spec fn spec_difficulty_key(d: GameDifficulty) -> Seq<char> {
    match d {
        GameDifficulty::Easy => "difficulty_easy"@,
        GameDifficulty::Medium => "difficulty_medium"@,
        GameDifficulty::Hard => "difficulty_hard"@,
    }
}

/// The user-facing switches of a session.
#[derive(Clone, Copy, Debug, PartialEq, Eq, Structural)]
pub struct GameSettings {
    pub is_fullscreen: bool,
    pub is_vsync: bool,
    pub is_fps_visible: bool,
}

/// The session: top-level state, difficulty, settings, locales, and
/// window geometry bookkeeping. The windowing system itself lives
/// outside; the session only records the sizes it is told.
pub struct Game {
    pub mode: GameMode,
    pub state: GameState,
    pub difficulty: GameDifficulty,
    pub all_locales: Vec<Locale>,
    pub curr_locale_index: usize,
    pub settings: GameSettings,
    pub window_width: i64,
    pub window_height: i64,
    pub fullscreen_width: i64,
    pub fullscreen_height: i64,
}

impl Game {
    pub open spec fn inv(self) -> bool {
        &&& self.all_locales@.len() >= 1
        &&& self.curr_locale_index < self.all_locales@.len()
        &&& 0 < self.window_width <= MAX_COORD
        &&& 0 < self.window_height <= MAX_COORD
        &&& 0 <= self.fullscreen_width <= MAX_COORD
        &&& 0 <= self.fullscreen_height <= MAX_COORD
    }

    pub const DEFAULT_WINDOW_WIDTH: i64 = 1600;

    pub const DEFAULT_WINDOW_HEIGHT: i64 = 900;

    /// A fresh session: Menu state, persisted difficulty and locale
    /// index applied when given (an out-of-range locale index falls back
    /// to the first locale), defaults otherwise. The locale list comes
    /// from the loader and must not be empty; a session cannot present
    /// any text without one.
    pub fn new(mode: GameMode, persisted: Option<(i32, i32)>, all_locales: Vec<Locale>) -> (r:
        Game)
        requires
            all_locales@.len() >= 1,
        ensures
            r.inv(),
            r.mode == mode,
            r.state == GameState::Menu,
            r.difficulty == match persisted {
                Some(p) => spec_difficulty_from_ordinal(p.1 as int),
                None => GameDifficulty::Easy,
            },
            r.curr_locale_index as int == match persisted {
                Some(p) => if 0 <= p.0 && (p.0 as int) < all_locales@.len() {
                    p.0 as int
                } else {
                    0
                },
                None => 0,
            },
            r.all_locales == all_locales,
            r.settings == (GameSettings {
                is_fullscreen: true,
                is_vsync: true,
                is_fps_visible: false,
            }),
            r.window_width == 1600,
            r.window_height == 900,
            r.fullscreen_width == 0,
            r.fullscreen_height == 0,
    {
        let (locale_raw, difficulty_raw): (i32, i32) = match persisted {
            Some(p) => p,
            None => (0, 0),
        };
        let curr_locale_index: usize = if locale_raw >= 0 && (locale_raw as usize)
            < all_locales.len() {
            locale_raw as usize
        } else {
            0
        };
        Game {
            mode,
            state: GameState::Menu,
            difficulty: GameDifficulty::from_ordinal(difficulty_raw),
            all_locales,
            curr_locale_index,
            settings: GameSettings { is_fullscreen: true, is_vsync: true, is_fps_visible: false },
            window_width: Self::DEFAULT_WINDOW_WIDTH,
            window_height: Self::DEFAULT_WINDOW_HEIGHT,
            fullscreen_width: 0,
            fullscreen_height: 0,
        }
    }

    pub fn get_mode(&self) -> (r: GameMode)
        ensures
            r == self.mode,
    {
        self.mode
    }

    pub fn get_state(&self) -> (r: GameState)
        ensures
            r == self.state,
    {
        self.state
    }

    pub fn set_state(&mut self, state: GameState)
        ensures
            *final(self) == (Game { state, ..*old(self) }),
    {
        self.state = state;
    }

    pub fn get_difficulty(&self) -> (r: GameDifficulty)
        ensures
            r == self.difficulty,
    {
        self.difficulty
    }

    pub fn get_all_locales(&self) -> (r: &Vec<Locale>)
        ensures
            r == self.all_locales,
    {
        &self.all_locales
    }

    pub fn get_all_locales_mut(&mut self) -> (r: &mut Vec<Locale>)
        ensures
            *r == old(self).all_locales,
            *final(self) == (Game { all_locales: *final(r), ..*old(self) }),
    {
        &mut self.all_locales
    }

    pub fn get_locale(&self) -> (r: &Locale)
        requires
            self.inv(),
        ensures
            r == self.all_locales@[self.curr_locale_index as int],
    {
        &self.all_locales[self.curr_locale_index]
    }

    /// The index of the last locale whose code equals the given one, or
    /// nothing when no locale carries it.
    pub open spec fn spec_find_locale(ls: Seq<Locale>, code: Seq<char>) -> Option<int>
        decreases ls.len(),
    {
        if ls.len() == 0 {
            None
        } else if ls.last().code@ == code {
            Some(ls.len() - 1)
        } else {
            Self::spec_find_locale(ls.drop_last(), code)
        }
    }

    /// A found locale index lies inside the list.
    pub proof fn lemma_find_locale_bounds(ls: Seq<Locale>, code: Seq<char>)
        ensures
            match Self::spec_find_locale(ls, code) {
                Some(k) => 0 <= k < ls.len(),
                None => true,
            },
        decreases ls.len(),
    {
        if ls.len() > 0 && ls.last().code@ != code {
            Self::lemma_find_locale_bounds(ls.drop_last(), code);
        }
    }

    /// Makes the locale with the given code current; with an unknown
    /// code nothing changes. When several locales share the code, the
    /// last one wins.
    pub fn set_locale(&mut self, code: &str)
        ensures
            old(self).inv() ==> final(self).inv(),
            *final(self) == (Game {
                curr_locale_index: final(self).curr_locale_index,
                ..*old(self)
            }),
            final(self).curr_locale_index as int == match Self::spec_find_locale(
                old(self).all_locales@,
                code@,
            ) {
                Some(k) => k,
                None => old(self).curr_locale_index as int,
            },
    {
        proof {
            Self::lemma_find_locale_bounds(self.all_locales@, code@);
        }
        let ghost ls = self.all_locales@;
        let n: usize = self.all_locales.len();
        let mut i: usize = n;
        proof {
            assert(ls.take(i as int) =~= ls);
        }
        while i > 0
            invariant
                0 <= i <= n,
                n == ls.len(),
                self.all_locales@ == ls,
                self.curr_locale_index == old(self).curr_locale_index,
                self.mode == old(self).mode,
                *self == (Game { curr_locale_index: self.curr_locale_index, ..*old(self) }),
                Self::spec_find_locale(ls, code@) == Self::spec_find_locale(
                    ls.take(i as int),
                    code@,
                ),
            decreases i,
        {
            i = i - 1;
            proof {
                let t = ls.take(i as int + 1);
                assert(t.last() == ls[i as int]);
                assert(t.drop_last() =~= ls.take(i as int));
            }
            if self.all_locales[i].code.as_str().eq(code) {
                self.curr_locale_index = i;
                return ;
            }
        }
    }

    /// Moves to the next locale in the list, wrapping around at the end.
    pub fn change_locale(&mut self)
        requires
            old(self).inv(),
        ensures
            final(self).inv(),
            *final(self) == (Game {
                curr_locale_index: final(self).curr_locale_index,
                ..*old(self)
            }),
            final(self).curr_locale_index as int == if old(self).curr_locale_index + 1
                >= old(self).all_locales@.len() {
                0int
            } else {
                old(self).curr_locale_index + 1
            },
    {
        let n: usize = self.all_locales.len();
        self.curr_locale_index = if self.curr_locale_index + 1 >= n {
            0
        } else {
            self.curr_locale_index + 1
        };
    }

    /// The bytes the config file must hold for this session's locale
    /// index and difficulty; the caller writes them to disk whole.
    pub fn config_file_contents(&self) -> (r: Vec<u8>)
        ensures
            r@ == config::spec_render_config(
                self.curr_locale_index as nat,
                spec_difficulty_ordinal(self.difficulty) as nat,
            ),
    {
        config::render_config(self.curr_locale_index as u64, self.difficulty.ordinal() as u64)
    }

    pub fn get_settings(&self) -> (r: &GameSettings)
        ensures
            *r == self.settings,
    {
        &self.settings
    }

    /// Advances the given difficulty one step along the cycle and makes
    /// the successor current.
    pub fn change_difficulty(&mut self, difficulty: GameDifficulty)
        ensures
            *final(self) == (Game { difficulty: next_difficulty(difficulty), ..*old(self) }),
    {
        match difficulty {
            GameDifficulty::Easy => self.difficulty = GameDifficulty::Medium,
            GameDifficulty::Medium => self.difficulty = GameDifficulty::Hard,
            GameDifficulty::Hard => self.difficulty = GameDifficulty::Easy,
        }
    }

    pub fn get_window_width(&self) -> (r: i64)
        ensures
            r == self.window_width,
    {
        self.window_width
    }

    pub fn get_window_height(&self) -> (r: i64)
        ensures
            r == self.window_height,
    {
        self.window_height
    }

    pub fn set_window_sizes(&mut self, width: i64, height: i64)
        requires
            0 < width <= MAX_COORD,
            0 < height <= MAX_COORD,
        ensures
            *final(self) == (Game {
                window_width: width,
                window_height: height,
                ..*old(self)
            }),
    {
        self.window_width = width;
        self.window_height = height;
    }

    pub fn set_fullscreen_sizes(&mut self, width: i64, height: i64)
        requires
            0 <= width <= MAX_COORD,
            0 <= height <= MAX_COORD,
        ensures
            *final(self) == (Game {
                fullscreen_width: width,
                fullscreen_height: height,
                ..*old(self)
            }),
    {
        self.fullscreen_width = width;
        self.fullscreen_height = height;
    }

    /// Flips the fullscreen switch. The caller must then put the window
    /// into the matching mode — entering fullscreen: borderless mode,
    /// then a resize to the stored fullscreen sizes, then fullscreen
    /// mode; leaving: fullscreen mode off, then borderless mode off —
    /// and afterwards report the real screen size back through
    /// apply_window_resize.
    pub fn toggle_fullscreen(&mut self)
        ensures
            *final(self) == (Game {
                settings: GameSettings {
                    is_fullscreen: !old(self).settings.is_fullscreen,
                    ..old(self).settings
                },
                ..*old(self)
            }),
    {
        self.settings.is_fullscreen = !self.settings.is_fullscreen;
    }

    pub fn toggle_fps_monitor(&mut self)
        ensures
            *final(self) == (Game {
                settings: GameSettings {
                    is_fps_visible: !old(self).settings.is_fps_visible,
                    ..old(self).settings
                },
                ..*old(self)
            }),
    {
        self.settings.is_fps_visible = !self.settings.is_fps_visible;
    }
}


/// What the session asks the app to do after its frame: nothing, apply
/// the window mode for the flipped fullscreen switch, or quit.
#[derive(Clone, Copy, PartialEq, Eq, Structural, Debug)]
pub enum SessionAction {
    Idle,
    ApplyFullscreen,
    Quit,
}

/// What the session controller reads of a frame's input: whether the
/// window was resized and to what size, and the two global hotkeys.
#[derive(Clone, Copy, PartialEq, Eq, Structural)]
pub struct SessionInput {
    pub window_resized: bool,
    pub new_width: i64,
    pub new_height: i64,
    pub fullscreen_key_released: bool,
    pub cancel_key_released: bool,
}

/// Records a new window size and moves every rectangle of the menu and
/// of the round to the layout for it.
pub fn apply_window_resize(
    game: &mut Game,
    menu: &mut Menu,
    level: &mut Level,
    width: i64,
    height: i64,
)
    requires
        old(game).inv(),
        old(menu).inv(),
        old(level).inv(),
        0 < width <= MAX_COORD,
        0 < height <= MAX_COORD,
    ensures
        final(game).inv(),
        final(menu).inv(),
        final(level).inv(),
        *final(game) == (Game { window_width: width, window_height: height, ..*old(game) }),
        final(menu).state == old(menu).state,
        final(menu).items@ == relaid_items(old(menu).items@, width as int, height as int),
        final(menu).settings_items@ == relaid_items(
            old(menu).settings_items@,
            width as int,
            height as int,
        ),
        final(menu).locale_items == old(menu).locale_items,
        has_layout(*final(level), width as int, height as int),
        *final(level) == (Level {
            buttons: final(level).buttons,
            btn_game_exit: Button {
                rec: final(level).btn_game_exit.rec,
                ..old(level).btn_game_exit
            },
            btn_after_game_try_again: Button {
                rec: final(level).btn_after_game_try_again.rec,
                ..old(level).btn_after_game_try_again
            },
            btn_after_game_exit: Button {
                rec: final(level).btn_after_game_exit.rec,
                ..old(level).btn_after_game_exit
            },
            ..*old(level)
        }),
{
    game.set_window_sizes(width, height);
    menu.update_btn_positions(game);
    level.update_btn_positions(game);
}

impl Game {
    /// One frame of the session controller. A window resize re-lays the
    /// menu and the round out for the new size. The fullscreen hotkey
    /// flips the switch and asks the app to apply the matching window
    /// mode. The cancel hotkey dismisses the help screen if it shows;
    /// otherwise it leaves a playing, won or lost session for the menu,
    /// and at the menu itself it asks the app to quit.
    pub fn process_controller(
        &mut self,
        input: SessionInput,
        menu: &mut Menu,
        level: &mut Level,
    ) -> (r: SessionAction)
        requires
            old(self).inv(),
            old(menu).inv(),
            old(level).inv(),
            input.window_resized ==> 0 < input.new_width <= MAX_COORD && 0 < input.new_height
                <= MAX_COORD,
        ensures
            final(self).inv(),
            final(menu).inv(),
            final(level).inv(),
            *final(self) == (Game {
                state: final(self).state,
                settings: final(self).settings,
                window_width: final(self).window_width,
                window_height: final(self).window_height,
                ..*old(self)
            }),
            final(self).window_width == if input.window_resized {
                input.new_width
            } else {
                old(self).window_width
            },
            final(self).window_height == if input.window_resized {
                input.new_height
            } else {
                old(self).window_height
            },
            final(self).settings == (GameSettings {
                is_fullscreen: if input.fullscreen_key_released {
                    !old(self).settings.is_fullscreen
                } else {
                    old(self).settings.is_fullscreen
                },
                ..old(self).settings
            }),
            final(self).state == if input.cancel_key_released && old(menu).state
                != MenuState::Help && old(self).state != GameState::Menu {
                GameState::Menu
            } else {
                old(self).state
            },
            final(menu).state == if input.cancel_key_released && old(menu).state
                == MenuState::Help {
                MenuState::Primary
            } else {
                old(menu).state
            },
            final(menu).items@ == if input.window_resized {
                relaid_items(old(menu).items@, input.new_width as int, input.new_height as int)
            } else {
                old(menu).items@
            },
            final(menu).settings_items@ == if input.window_resized {
                relaid_items(
                    old(menu).settings_items@,
                    input.new_width as int,
                    input.new_height as int,
                )
            } else {
                old(menu).settings_items@
            },
            final(menu).locale_items == old(menu).locale_items,
            input.window_resized ==> has_layout(
                *final(level),
                input.new_width as int,
                input.new_height as int,
            ),
            *final(level) == (Level {
                buttons: final(level).buttons,
                btn_game_exit: Button {
                    rec: final(level).btn_game_exit.rec,
                    ..old(level).btn_game_exit
                },
                btn_after_game_try_again: Button {
                    rec: final(level).btn_after_game_try_again.rec,
                    ..old(level).btn_after_game_try_again
                },
                btn_after_game_exit: Button {
                    rec: final(level).btn_after_game_exit.rec,
                    ..old(level).btn_after_game_exit
                },
                ..*old(level)
            }),
            !input.window_resized ==> *final(level) == *old(level),
            r == if input.cancel_key_released && old(menu).state != MenuState::Help && old(
                self,
            ).state == GameState::Menu {
                SessionAction::Quit
            } else if input.fullscreen_key_released {
                SessionAction::ApplyFullscreen
            } else {
                SessionAction::Idle
            },
    {
        if input.window_resized {
            apply_window_resize(self, menu, level, input.new_width, input.new_height);
        }
        let mut action = SessionAction::Idle;
        if input.fullscreen_key_released {
            self.toggle_fullscreen();
            action = SessionAction::ApplyFullscreen;
        }
        if input.cancel_key_released {
            if matches!(menu.get_state(), MenuState::Help) {
                menu.set_state(MenuState::Primary);
            } else {
                match self.state {
                    GameState::Game | GameState::Win | GameState::Lose => {
                        self.state = GameState::Menu;
                    },
                    GameState::Menu => {
                        action = SessionAction::Quit;
                    },
                }
            }
        }
        action
    }
}

} // verus!
