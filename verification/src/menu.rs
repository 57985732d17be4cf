use vstd::prelude::*;
use crate::game::{Game, GameSettings, GameState, next_difficulty};
use crate::level::{spec_started_round, Level};
use crate::timer::{spec_resume, MAX_TIME_MS};
use crate::utils::{div_floor, Rect, UiColor, MAX_COORD};

verus! {

/// Every entry any of the menus can carry.
#[derive(Clone, Copy, Debug, PartialEq, Eq, Structural)]
pub enum MenuAllItems {
    Start,
    Continue,
    Settings,
    Help,
    Exit,
    Difficulty,
    Language,
    Fullscreen,
    ToggleFPS,
    Back,
}

/// The text key a locale stores an entry's label under; empty for the
/// settings entries, whose label is the current value instead.
pub open spec fn spec_item_value(it: MenuAllItems) -> Seq<char> {
    match it {
        MenuAllItems::Start => "menu_start"@,
        MenuAllItems::Continue => "menu_continue"@,
        MenuAllItems::Settings => "menu_settings"@,
        MenuAllItems::Help => "menu_help"@,
        MenuAllItems::Exit => "menu_exit"@,
        MenuAllItems::Back => "menu_back"@,
        _ => ""@,
    }
}

/// The text key of an entry's side description; empty for entries that
/// carry none.
pub open spec fn spec_item_description(it: MenuAllItems) -> Seq<char> {
    match it {
        MenuAllItems::Difficulty => "menu_difficulty"@,
        MenuAllItems::Language => "menu_language"@,
        MenuAllItems::Fullscreen => "menu_fullscreen"@,
        MenuAllItems::ToggleFPS => "menu_toggle_fps"@,
        _ => ""@,
    }
}

/// The settings entries carry a description label at the side; they are
/// laid out to the right, the others centered.
pub open spec fn spec_has_description(it: MenuAllItems) -> bool {
    it == MenuAllItems::Difficulty || it == MenuAllItems::Language || it
        == MenuAllItems::Fullscreen || it == MenuAllItems::ToggleFPS
}

impl MenuAllItems {
    pub fn value(&self) -> (r: &'static str)
        ensures
            r@ == spec_item_value(*self),
    {
        match *self {
            MenuAllItems::Start => "menu_start",
            MenuAllItems::Continue => "menu_continue",
            MenuAllItems::Settings => "menu_settings",
            MenuAllItems::Help => "menu_help",
            MenuAllItems::Exit => "menu_exit",
            MenuAllItems::Back => "menu_back",
            _ => "",
        }
    }

    pub fn description(&self) -> (r: &'static str)
        ensures
            r@ == spec_item_description(*self),
    {
        match *self {
            MenuAllItems::Difficulty => "menu_difficulty",
            MenuAllItems::Language => "menu_language",
            MenuAllItems::Fullscreen => "menu_fullscreen",
            MenuAllItems::ToggleFPS => "menu_toggle_fps",
            _ => "",
        }
    }

    pub fn has_description(&self) -> (r: bool)
        ensures
            r == spec_has_description(*self),
    {
        match *self {
            MenuAllItems::Difficulty => true,
            MenuAllItems::Language => true,
            MenuAllItems::Fullscreen => true,
            MenuAllItems::ToggleFPS => true,
            _ => false,
        }
    }
}

/// Which screen of the menu is showing.
#[derive(Clone, Copy, Debug, PartialEq, Eq, Structural)]
pub enum MenuState {
    LanguageSelect,
    Primary,
    Settings,
    Help,
}

/// One entry of a menu list: its rectangle, its kind, and its current
/// highlight color.
#[derive(Clone, Copy, Debug, PartialEq, Eq, Structural)]
pub struct MenuItem {
    pub btn: Rect,
    pub title: MenuAllItems,
    pub color: UiColor,
}

/// One entry of the language selector.
#[derive(Clone, Copy, Debug, PartialEq, Eq, Structural)]
pub struct LocaleItem {
    pub btn: Rect,
    pub color: UiColor,
}

/// What the app must do after a menu frame, beyond what the library
/// already changed: nothing, quit, persist the config, switch the window
/// mode to match the fullscreen flag and report the real size back, or
/// persist the config and unload the language-selector textures.
#[derive(Clone, Copy, PartialEq, Eq, Structural, Debug)]
pub enum MenuAction {
    Idle,
    Quit,
    SaveConfig,
    ToggleFullscreen,
    FinishLanguageSelect,
}

pub const MENU_ITEM_WIDTH: i64 = 400;

pub const MENU_ITEM_HEIGHT: i64 = 80;

pub const MENU_ITEMS_DIFF: i64 = 40;

// ---------------------------------------------------------------------------
// Layout
// ---------------------------------------------------------------------------

/// The left edge of an entry: entries with a side description sit to the
/// right, the others are centered.
pub open spec fn menu_item_x(w: int, desc: bool) -> int {
    if desc {
        w / 8 * 7 - 400
    } else {
        (w - 400) / 2
    }
}

/// The top edge of the entry at an index, with the whole block of n
/// entries centered vertically.
pub open spec fn menu_item_y(h: int, n: int, i: int) -> int {
    (h - (n * 80 + (n - 1) * 40)) / 2 + i * 120
}

/// The entry list a title list is laid out to, all highlights at their
/// default.
pub open spec fn built_items(titles: Seq<MenuAllItems>, w: int, h: int) -> Seq<MenuItem> {
    Seq::new(
        titles.len(),
        |i: int|
            MenuItem {
                btn: Rect {
                    x: menu_item_x(w, spec_has_description(titles[i])) as i64,
                    y: menu_item_y(h, titles.len() as int, i) as i64,
                    width: 400,
                    height: 80,
                },
                title: titles[i],
                color: UiColor::LightGray,
            },
    )
}

/// The same entries moved to the layout for a window size, titles and
/// highlights kept.
pub open spec fn relaid_items(items: Seq<MenuItem>, w: int, h: int) -> Seq<MenuItem> {
    Seq::new(
        items.len(),
        |i: int|
            MenuItem {
                btn: Rect {
                    x: menu_item_x(w, spec_has_description(items[i].title)) as i64,
                    y: menu_item_y(h, items.len() as int, i) as i64,
                    width: 400,
                    height: 80,
                },
                ..items[i]
            },
    )
}

/// The left edge of a language-selector entry: the row of n flags is
/// centered, each 100 apart, stepping by the flag's own width.
pub open spec fn locale_item_x(w: int, tw: int, n: int, i: int) -> int {
    (w - ((tw + 100) * n - 100)) / 2 + (tw + 100) * i
}

/// The language-selector entries for the given flag texture sizes.
pub open spec fn built_locale_items(sizes: Seq<(i64, i64)>, w: int, h: int) -> Seq<LocaleItem> {
    Seq::new(
        sizes.len(),
        |i: int|
            LocaleItem {
                btn: Rect {
                    x: locale_item_x(w, sizes[i].0 as int, sizes.len() as int, i) as i64,
                    y: ((h - sizes[i].1) / 2) as i64,
                    width: sizes[i].0,
                    height: sizes[i].1,
                },
                color: UiColor::White,
            },
    )
}

/// Entries with the pointer over them highlighted, all others at the
/// menu default.
pub open spec fn hovered_items(items: Seq<MenuItem>, px: int, py: int) -> Seq<MenuItem> {
    Seq::new(
        items.len(),
        |i: int|
            MenuItem {
                color: if items[i].btn.spec_contains(px, py) {
                    UiColor::LightGreen
                } else {
                    UiColor::LightGray
                },
                ..items[i]
            },
    )
}

/// Language-selector entries highlighted the same way; their default is
/// white.
pub open spec fn hovered_locale_items(items: Seq<LocaleItem>, px: int, py: int) -> Seq<
    LocaleItem,
> {
    Seq::new(
        items.len(),
        |i: int|
            LocaleItem {
                color: if items[i].btn.spec_contains(px, py) {
                    UiColor::LightGreen
                } else {
                    UiColor::White
                },
                ..items[i]
            },
    )
}

/// The first entry at or after position k that lies under the pointer;
/// -1 when there is none.
pub open spec fn menu_first_hit(items: Seq<MenuItem>, px: int, py: int, k: int) -> int
    decreases items.len() - k,
{
    if k < 0 || k >= items.len() {
        -1
    } else if items[k].btn.spec_contains(px, py) {
        k
    } else {
        menu_first_hit(items, px, py, k + 1)
    }
}

/// The first language-selector entry under the pointer; -1 when none is.
pub open spec fn locale_first_hit(items: Seq<LocaleItem>, px: int, py: int, k: int) -> int
    decreases items.len() - k,
{
    if k < 0 || k >= items.len() {
        -1
    } else if items[k].btn.spec_contains(px, py) {
        k
    } else {
        locale_first_hit(items, px, py, k + 1)
    }
}

/// With the pointer over no entry at all, hovering resets every entry's
/// highlight to the menu default: no entry stays highlighted after the
/// pointer leaves its bounds.
pub proof fn lemma_hover_reset_defaults(items: Seq<MenuItem>, px: int, py: int)
    requires
        forall|i: int| 0 <= i < items.len() ==> !(#[trigger] items[i]).btn.spec_contains(px, py),
    ensures
        forall|i: int|
            0 <= i < items.len() ==> (#[trigger] hovered_items(items, px, py)[i]).color
                == UiColor::LightGray,
{
}

/// The same for the language selector, whose default is white.
pub proof fn lemma_hover_reset_locale_defaults(items: Seq<LocaleItem>, px: int, py: int)
    requires
        forall|i: int| 0 <= i < items.len() ==> !(#[trigger] items[i]).btn.spec_contains(px, py),
    ensures
        forall|i: int|
            0 <= i < items.len() ==> (#[trigger] hovered_locale_items(items, px, py)[i]).color
                == UiColor::White,
{
}

// ---------------------------------------------------------------------------
// Title lists
// ---------------------------------------------------------------------------

/// The primary menu before a round was started.
pub open spec fn primary_titles() -> Seq<MenuAllItems> {
    seq![MenuAllItems::Start, MenuAllItems::Settings, MenuAllItems::Help, MenuAllItems::Exit]
}

/// The primary menu once a round can be continued.
pub open spec fn full_primary_titles() -> Seq<MenuAllItems> {
    seq![
        MenuAllItems::Start,
        MenuAllItems::Continue,
        MenuAllItems::Settings,
        MenuAllItems::Help,
        MenuAllItems::Exit,
    ]
}

/// The settings menu.
pub open spec fn settings_titles() -> Seq<MenuAllItems> {
    seq![
        MenuAllItems::Difficulty,
        MenuAllItems::Language,
        MenuAllItems::Fullscreen,
        MenuAllItems::ToggleFPS,
        MenuAllItems::Back,
    ]
}

fn primary_titles_vec() -> (r: Vec<MenuAllItems>)
    ensures
        r@ == primary_titles(),
{
    let mut v: Vec<MenuAllItems> = Vec::new();
    v.push(MenuAllItems::Start);
    v.push(MenuAllItems::Settings);
    v.push(MenuAllItems::Help);
    v.push(MenuAllItems::Exit);
    proof {
        assert(v@ =~= primary_titles());
    }
    v
}

fn full_primary_titles_vec() -> (r: Vec<MenuAllItems>)
    ensures
        r@ == full_primary_titles(),
{
    let mut v: Vec<MenuAllItems> = Vec::new();
    v.push(MenuAllItems::Start);
    v.push(MenuAllItems::Continue);
    v.push(MenuAllItems::Settings);
    v.push(MenuAllItems::Help);
    v.push(MenuAllItems::Exit);
    proof {
        assert(v@ =~= full_primary_titles());
    }
    v
}

fn settings_titles_vec() -> (r: Vec<MenuAllItems>)
    ensures
        r@ == settings_titles(),
{
    let mut v: Vec<MenuAllItems> = Vec::new();
    v.push(MenuAllItems::Difficulty);
    v.push(MenuAllItems::Language);
    v.push(MenuAllItems::Fullscreen);
    v.push(MenuAllItems::ToggleFPS);
    v.push(MenuAllItems::Back);
    proof {
        assert(v@ =~= settings_titles());
    }
    v
}

// ---------------------------------------------------------------------------
// The menu
// ---------------------------------------------------------------------------

/// The hierarchical menu: which screen shows, the primary and settings
/// entry lists, and the language-selector entries while that screen is
/// up.
pub struct Menu {
    pub state: MenuState,
    pub items: Vec<MenuItem>,
    pub settings_items: Vec<MenuItem>,
    pub locale_items: Vec<LocaleItem>,
}

impl Menu {
    pub open spec fn inv(self) -> bool {
        &&& 4 <= self.items@.len() <= 5
        &&& forall|i: int| 0 <= i < self.items@.len() ==> (#[trigger] self.items@[i]).btn.wf()
        &&& self.settings_items@.len() == 5
        &&& forall|i: int|
            0 <= i < self.settings_items@.len() ==> (#[trigger] self.settings_items@[i]).btn.wf()
        &&& self.locale_items@.len() <= 64
        &&& forall|i: int|
            0 <= i < self.locale_items@.len() ==> (#[trigger] self.locale_items@[i]).btn.wf()
    }

    /// A fresh menu for the session: the primary and settings lists laid
    /// out for the current window. On a first run, when no config file
    /// existed yet, the language selector shows first, its entries sized
    /// by the given flag textures (one per locale, in locale order).
    pub fn new(game: &Game, config_exists: bool, locale_texture_sizes: &Vec<(i64, i64)>) -> (r:
        Menu)
        requires
            game.inv(),
            locale_texture_sizes@.len() == game.all_locales@.len(),
            locale_texture_sizes@.len() <= 64,
            forall|i: int|
                0 <= i < locale_texture_sizes@.len() ==> 0 < (
                #[trigger] locale_texture_sizes@[i]).0 <= 4096 && 0
                    < locale_texture_sizes@[i].1 <= 4096,
        ensures
            r.inv(),
            r.state == if config_exists {
                MenuState::Primary
            } else {
                MenuState::LanguageSelect
            },
            r.items@ == built_items(
                primary_titles(),
                game.window_width as int,
                game.window_height as int,
            ),
            r.settings_items@ == built_items(
                settings_titles(),
                game.window_width as int,
                game.window_height as int,
            ),
            r.locale_items@ == if config_exists {
                Seq::<LocaleItem>::empty()
            } else {
                built_locale_items(
                    locale_texture_sizes@,
                    game.window_width as int,
                    game.window_height as int,
                )
            },
    {
        let menu_state = if config_exists {
            MenuState::Primary
        } else {
            MenuState::LanguageSelect
        };
        let primary = primary_titles_vec();
        let settings = settings_titles_vec();
        Menu {
            state: menu_state,
            items: Self::construct_menu_items(&primary, game),
            settings_items: Self::construct_menu_items(&settings, game),
            locale_items: Self::construct_locale_items(menu_state, game, locale_texture_sizes),
        }
    }

    /// Lays the given entries out for the session's window.
    fn construct_menu_items(menu_items: &Vec<MenuAllItems>, game: &Game) -> (r: Vec<MenuItem>)
        requires
            game.inv(),
            1 <= menu_items@.len() <= 16,
        ensures
            r@ == built_items(menu_items@, game.window_width as int, game.window_height as int),
            forall|i: int| 0 <= i < r@.len() ==> (#[trigger] r@[i]).btn.wf(),
    {
        let w = game.get_window_width();
        let h = game.get_window_height();
        let n: usize = menu_items.len();
        let total: i64 = (n as i64) * MENU_ITEM_HEIGHT + ((n as i64) - 1) * MENU_ITEMS_DIFF;
        let mut items: Vec<MenuItem> = Vec::new();
        let mut i: usize = 0;
        while i < n
            invariant
                0 <= i <= n,
                n == menu_items@.len(),
                1 <= n <= 16,
                total == n * 80 + (n - 1) * 40,
                game.inv(),
                w == game.window_width,
                h == game.window_height,
                items@ =~= built_items(
                    menu_items@,
                    w as int,
                    h as int,
                ).take(i as int),
                forall|j: int| 0 <= j < items@.len() ==> (#[trigger] items@[j]).btn.wf(),
            decreases n - i,
        {
            let title = menu_items[i];
            let x: i64 = if title.has_description() {
                div_floor(w, 8) * 7 - 400
            } else {
                div_floor(w - 400, 2)
            };
            let y: i64 = div_floor(h - total, 2) + (i as i64) * 120;
            let item = MenuItem {
                btn: Rect { x, y, width: MENU_ITEM_WIDTH, height: MENU_ITEM_HEIGHT },
                title,
                color: UiColor::LightGray,
            };
            items.push(item);
            proof {
                assert(items@ =~= built_items(menu_items@, w as int, h as int).take(i as int + 1));
            }
            i = i + 1;
        }
        proof {
            assert(built_items(menu_items@, w as int, h as int).take(n as int) =~= built_items(
                menu_items@,
                w as int,
                h as int,
            ));
        }
        items
    }

    /// Lays the language-selector entries out, one per flag texture; any
    /// other screen carries none.
    fn construct_locale_items(menu_state: MenuState, game: &Game, sizes: &Vec<(i64, i64)>) -> (r:
        Vec<LocaleItem>)
        requires
            game.inv(),
            sizes@.len() <= 64,
            forall|i: int|
                0 <= i < sizes@.len() ==> 0 < (#[trigger] sizes@[i]).0 <= 4096 && 0 < sizes@[i].1
                    <= 4096,
        ensures
            r@ == if menu_state == MenuState::LanguageSelect {
                built_locale_items(sizes@, game.window_width as int, game.window_height as int)
            } else {
                Seq::<LocaleItem>::empty()
            },
            forall|i: int| 0 <= i < r@.len() ==> (#[trigger] r@[i]).btn.wf(),
    {
        let mut items: Vec<LocaleItem> = Vec::new();
        if !matches!(menu_state, MenuState::LanguageSelect) {
            proof {
                assert(items@ =~= Seq::<LocaleItem>::empty());
            }
            return items;
        }
        let w = game.get_window_width();
        let h = game.get_window_height();
        let n: usize = sizes.len();
        let mut i: usize = 0;
        while i < n
            invariant
                0 <= i <= n,
                n == sizes@.len(),
                n <= 64,
                game.inv(),
                w == game.window_width,
                h == game.window_height,
                forall|j: int|
                    0 <= j < sizes@.len() ==> 0 < (#[trigger] sizes@[j]).0 <= 4096 && 0
                        < sizes@[j].1 <= 4096,
                items@ =~= built_locale_items(sizes@, w as int, h as int).take(i as int),
                forall|j: int| 0 <= j < items@.len() ==> (#[trigger] items@[j]).btn.wf(),
            decreases n - i,
        {
            let (tw, th) = sizes[i];
            proof {
                assert(0 < (tw + 100) * (n as int) <= 4196 * 64) by (nonlinear_arith)
                    requires
                        0 < tw <= 4096,
                        0 < n <= 64,
                ;
                assert(0 <= (tw + 100) * (i as int) < 4196 * 64) by (nonlinear_arith)
                    requires
                        0 < tw <= 4096,
                        0 <= i < 64,
                ;
            }
            let x: i64 = div_floor(w - ((tw + 100) * (n as i64) - 100), 2) + (tw + 100) * (
            i as i64);
            let y: i64 = div_floor(h - th, 2);
            let item = LocaleItem {
                btn: Rect { x, y, width: tw, height: th },
                color: UiColor::White,
            };
            items.push(item);
            proof {
                assert(items@ =~= built_locale_items(sizes@, w as int, h as int).take(i as int + 1));
            }
            i = i + 1;
        }
        proof {
            assert(built_locale_items(sizes@, w as int, h as int).take(n as int)
                =~= built_locale_items(sizes@, w as int, h as int));
        }
        items
    }

    pub fn get_state(&self) -> (r: MenuState)
        ensures
            r == self.state,
    {
        self.state
    }

    pub fn set_state(&mut self, state: MenuState)
        ensures
            *final(self) == (Menu { state, ..*old(self) }),
    {
        self.state = state;
    }

    /// Moves the primary and settings entries to the layout for the
    /// session's current window size; titles and highlights stay.
    pub fn update_btn_positions(&mut self, game: &Game)
        requires
            old(self).inv(),
            game.inv(),
        ensures
            final(self).inv(),
            final(self).state == old(self).state,
            final(self).items@ == relaid_items(
                old(self).items@,
                game.window_width as int,
                game.window_height as int,
            ),
            final(self).settings_items@ == relaid_items(
                old(self).settings_items@,
                game.window_width as int,
                game.window_height as int,
            ),
            final(self).locale_items == old(self).locale_items,
    {
        let w = game.get_window_width();
        let h = game.get_window_height();
        self.items = Self::relayout(&self.items, w, h);
        self.settings_items = Self::relayout(&self.settings_items, w, h);
    }

    /// The same entries at the positions for a window size.
    fn relayout(items: &Vec<MenuItem>, w: i64, h: i64) -> (r: Vec<MenuItem>)
        requires
            0 < w <= MAX_COORD,
            0 < h <= MAX_COORD,
            1 <= items@.len() <= 16,
        ensures
            r@ == relaid_items(items@, w as int, h as int),
            r@.len() == items@.len(),
            forall|i: int| 0 <= i < r@.len() ==> (#[trigger] r@[i]).btn.wf(),
    {
        let n: usize = items.len();
        let total: i64 = (n as i64) * MENU_ITEM_HEIGHT + ((n as i64) - 1) * MENU_ITEMS_DIFF;
        let mut out: Vec<MenuItem> = Vec::new();
        let mut i: usize = 0;
        while i < n
            invariant
                0 <= i <= n,
                n == items@.len(),
                1 <= n <= 16,
                total == n * 80 + (n - 1) * 40,
                0 < w <= MAX_COORD,
                0 < h <= MAX_COORD,
                out@ =~= relaid_items(items@, w as int, h as int).take(i as int),
                forall|j: int| 0 <= j < out@.len() ==> (#[trigger] out@[j]).btn.wf(),
            decreases n - i,
        {
            let item = items[i];
            let x: i64 = if item.title.has_description() {
                div_floor(w, 8) * 7 - 400
            } else {
                div_floor(w - 400, 2)
            };
            let y: i64 = div_floor(h - total, 2) + (i as i64) * 120;
            out.push(MenuItem { btn: Rect { x, y, width: MENU_ITEM_WIDTH, height: MENU_ITEM_HEIGHT }, ..item });
            proof {
                assert(out@ =~= relaid_items(items@, w as int, h as int).take(i as int + 1));
            }
            i = i + 1;
        }
        proof {
            assert(relaid_items(items@, w as int, h as int).take(n as int) =~= relaid_items(
                items@,
                w as int,
                h as int,
            ));
        }
        out
    }

    /// Swaps the primary list between its four-entry form and the
    /// five-entry form that carries Continue.
    fn update_primary_menu(&mut self, game: &Game, items_count: i32)
        requires
            old(self).inv(),
            game.inv(),
        ensures
            final(self).inv(),
            *final(self) == (Menu { items: final(self).items, ..*old(self) }),
            final(self).items@ == if items_count == 4 {
                built_items(primary_titles(), game.window_width as int, game.window_height as int)
            } else if items_count == 5 {
                built_items(
                    full_primary_titles(),
                    game.window_width as int,
                    game.window_height as int,
                )
            } else {
                old(self).items@
            },
    {
        if items_count == 4 {
            let titles = primary_titles_vec();
            self.items = Self::construct_menu_items(&titles, game);
        } else if items_count == 5 {
            let titles = full_primary_titles_vec();
            self.items = Self::construct_menu_items(&titles, game);
        }
    }
}


// ---------------------------------------------------------------------------
// Hovering
// ---------------------------------------------------------------------------

/// The list with hover highlights for the pointer position, and the
/// first entry under the pointer (-1 when there is none).
#[verifier::loop_isolation(false)]
fn hover_menu_list(items: &Vec<MenuItem>, px: i64, py: i64) -> (r: (Vec<MenuItem>, i32))
    requires
        items@.len() <= 16,
        forall|i: int| 0 <= i < items@.len() ==> (#[trigger] items@[i]).btn.wf(),
    ensures
        r.0@ == hovered_items(items@, px as int, py as int),
        r.1 as int == menu_first_hit(items@, px as int, py as int, 0),
        -1 <= r.1 as int,
        (r.1 as int) < items@.len(),
        forall|i: int| 0 <= i < r.0@.len() ==> (#[trigger] r.0@[i]).btn.wf(),
{
    let n: usize = items.len();
    let mut out: Vec<MenuItem> = Vec::new();
    let mut hit: i32 = -1;
    let mut i: usize = 0;
    while i < n
        invariant
            0 <= i <= n,
            out@ =~= hovered_items(items@, px as int, py as int).take(i as int),
            forall|j: int| 0 <= j < out@.len() ==> (#[trigger] out@[j]).btn.wf(),
            hit == -1 ==> menu_first_hit(items@, px as int, py as int, 0) == menu_first_hit(
                items@,
                px as int,
                py as int,
                i as int,
            ),
            hit != -1 ==> hit as int == menu_first_hit(items@, px as int, py as int, 0),
            hit != -1 ==> 0 <= hit && (hit as int) < n as int,
        decreases n - i,
    {
        let item = items[i];
        let over = item.btn.contains(px, py);
        if over {
            out.push(MenuItem { color: UiColor::LightGreen, ..item });
            if hit == -1 {
                proof {
                    assert(menu_first_hit(items@, px as int, py as int, i as int) == i as int);
                }
                hit = i as i32;
            }
        } else {
            out.push(MenuItem { color: UiColor::LightGray, ..item });
            proof {
                if hit == -1 {
                    assert(menu_first_hit(items@, px as int, py as int, i as int)
                        == menu_first_hit(items@, px as int, py as int, i as int + 1));
                }
            }
        }
        proof {
            assert(out@ =~= hovered_items(items@, px as int, py as int).take(i as int + 1));
        }
        i = i + 1;
    }
    proof {
        assert(hovered_items(items@, px as int, py as int).take(n as int) =~= hovered_items(
            items@,
            px as int,
            py as int,
        ));
    }
    (out, hit)
}

/// The language-selector list with hover highlights, and the first entry
/// under the pointer (-1 when there is none).
#[verifier::loop_isolation(false)]
fn hover_locale_list(items: &Vec<LocaleItem>, px: i64, py: i64) -> (r: (Vec<LocaleItem>, i32))
    requires
        items@.len() <= 64,
        forall|i: int| 0 <= i < items@.len() ==> (#[trigger] items@[i]).btn.wf(),
    ensures
        r.0@ == hovered_locale_items(items@, px as int, py as int),
        r.1 as int == locale_first_hit(items@, px as int, py as int, 0),
        -1 <= r.1 as int,
        (r.1 as int) < items@.len(),
        forall|i: int| 0 <= i < r.0@.len() ==> (#[trigger] r.0@[i]).btn.wf(),
{
    let n: usize = items.len();
    let mut out: Vec<LocaleItem> = Vec::new();
    let mut hit: i32 = -1;
    let mut i: usize = 0;
    while i < n
        invariant
            0 <= i <= n,
            out@ =~= hovered_locale_items(items@, px as int, py as int).take(i as int),
            forall|j: int| 0 <= j < out@.len() ==> (#[trigger] out@[j]).btn.wf(),
            hit == -1 ==> locale_first_hit(items@, px as int, py as int, 0) == locale_first_hit(
                items@,
                px as int,
                py as int,
                i as int,
            ),
            hit != -1 ==> hit as int == locale_first_hit(items@, px as int, py as int, 0),
            hit != -1 ==> 0 <= hit && (hit as int) < n as int,
        decreases n - i,
    {
        let item = items[i];
        let over = item.btn.contains(px, py);
        if over {
            out.push(LocaleItem { color: UiColor::LightGreen, ..item });
            if hit == -1 {
                proof {
                    assert(locale_first_hit(items@, px as int, py as int, i as int) == i as int);
                }
                hit = i as i32;
            }
        } else {
            out.push(LocaleItem { color: UiColor::White, ..item });
            proof {
                if hit == -1 {
                    assert(locale_first_hit(items@, px as int, py as int, i as int)
                        == locale_first_hit(items@, px as int, py as int, i as int + 1));
                }
            }
        }
        proof {
            assert(out@ =~= hovered_locale_items(items@, px as int, py as int).take(i as int + 1));
        }
        i = i + 1;
    }
    proof {
        assert(hovered_locale_items(items@, px as int, py as int).take(n as int)
            =~= hovered_locale_items(items@, px as int, py as int));
    }
    (out, hit)
}

// ---------------------------------------------------------------------------
// What each menu frame does
// ---------------------------------------------------------------------------

/// The outcome of one primary-menu frame. The entry list first loses its
/// Continue entry when the shown round has ended; the first entry under
/// the pointer is highlighted and, on a release, dispatched: Start opens
/// a fresh round (and unlocks Continue), Continue resumes the paused
/// round, Settings and Help switch the screen, and Exit asks the app to
/// quit.
pub open spec fn spec_primary_outcome(
    m0: Menu,
    m1: Menu,
    g0: Game,
    g1: Game,
    l0: Level,
    l1: Level,
    px: int,
    py: int,
    released: bool,
    now: int,
    act: MenuAction,
) -> bool {
    let w = g0.window_width as int;
    let h = g0.window_height as int;
    let shrink = m0.items@.len() == 5 && l0.spec_is_over();
    let base = if shrink {
        built_items(primary_titles(), w, h)
    } else {
        m0.items@
    };
    let hit = menu_first_hit(base, px, py, 0);
    let clicked = released && hit != -1;
    let title = base[hit].title;
    &&& m1.settings_items == m0.settings_items
    &&& m1.locale_items == m0.locale_items
    &&& m1.state == (if clicked && title == MenuAllItems::Settings {
        MenuState::Settings
    } else if clicked && title == MenuAllItems::Help {
        MenuState::Help
    } else {
        m0.state
    })
    &&& act == (if clicked && title == MenuAllItems::Exit {
        MenuAction::Quit
    } else {
        MenuAction::Idle
    })
    &&& g1 == (Game {
        state: if clicked && (title == MenuAllItems::Start || title == MenuAllItems::Continue) {
            GameState::Game
        } else {
            g0.state
        },
        ..g0
    })
    &&& if clicked && title == MenuAllItems::Start {
        &&& m1.items@ == (if base.len() == 4 {
            built_items(full_primary_titles(), w, h)
        } else {
            hovered_items(base, px, py)
        })
        &&& spec_started_round(l1, l0, Level::spec_timer_duration(g0.mode, g0.difficulty), now)
    } else {
        &&& m1.items@ == hovered_items(base, px, py)
        &&& if clicked && title == MenuAllItems::Continue {
            &&& l1 == (Level { timer: l1.timer, ..l0 })
            &&& l1.timer@ == spec_resume(l0.timer@, now)
        } else {
            l1 == l0
        }
    }
}

/// The outcome of one settings-menu frame: the entry under the pointer
/// is highlighted and, on a release, dispatched: Difficulty advances the
/// cycle and asks for the config to be saved, Language advances the
/// locale likewise, Fullscreen flips the switch and asks the app to
/// change the window mode, ToggleFPS flips the overlay, and Back returns
/// to the primary menu.
pub open spec fn spec_settings_outcome(
    m0: Menu,
    m1: Menu,
    g0: Game,
    g1: Game,
    l0: Level,
    l1: Level,
    px: int,
    py: int,
    released: bool,
    act: MenuAction,
) -> bool {
    let base = m0.settings_items@;
    let hit = menu_first_hit(base, px, py, 0);
    let clicked = released && hit != -1;
    let title = base[hit].title;
    &&& m1.items == m0.items
    &&& m1.locale_items == m0.locale_items
    &&& m1.settings_items@ == hovered_items(base, px, py)
    &&& m1.state == (if clicked && title == MenuAllItems::Back {
        MenuState::Primary
    } else {
        m0.state
    })
    &&& l1 == l0
    &&& act == (if clicked && (title == MenuAllItems::Difficulty || title
        == MenuAllItems::Language) {
        MenuAction::SaveConfig
    } else if clicked && title == MenuAllItems::Fullscreen {
        MenuAction::ToggleFullscreen
    } else {
        MenuAction::Idle
    })
    &&& g1 == (Game {
        difficulty: g1.difficulty,
        curr_locale_index: g1.curr_locale_index,
        settings: g1.settings,
        ..g0
    })
    &&& g1.difficulty == (if clicked && title == MenuAllItems::Difficulty {
        next_difficulty(g0.difficulty)
    } else {
        g0.difficulty
    })
    &&& g1.curr_locale_index as int == (if clicked && title == MenuAllItems::Language {
        if g0.curr_locale_index + 1 >= g0.all_locales@.len() {
            0int
        } else {
            g0.curr_locale_index + 1
        }
    } else {
        g0.curr_locale_index as int
    })
    &&& g1.settings == (GameSettings {
        is_fullscreen: if clicked && title == MenuAllItems::Fullscreen {
            !g0.settings.is_fullscreen
        } else {
            g0.settings.is_fullscreen
        },
        is_fps_visible: if clicked && title == MenuAllItems::ToggleFPS {
            !g0.settings.is_fps_visible
        } else {
            g0.settings.is_fps_visible
        },
        ..g0.settings
    })
}

/// The outcome of one language-selector frame: hovering a flag selects
/// its locale at once; a release on it keeps the choice, leaves for the
/// primary menu, and asks the app to persist the config and drop the
/// flag textures.
pub open spec fn spec_language_outcome(
    m0: Menu,
    m1: Menu,
    g0: Game,
    g1: Game,
    l0: Level,
    l1: Level,
    px: int,
    py: int,
    released: bool,
    act: MenuAction,
) -> bool {
    let base = m0.locale_items@;
    let hit = locale_first_hit(base, px, py, 0);
    &&& m1.items == m0.items
    &&& m1.settings_items == m0.settings_items
    &&& l1 == l0
    &&& g1 == (Game { curr_locale_index: g1.curr_locale_index, ..g0 })
    &&& if hit == -1 {
        &&& g1.curr_locale_index == g0.curr_locale_index
        &&& m1.state == m0.state
        &&& m1.locale_items@ == hovered_locale_items(base, px, py)
        &&& act == MenuAction::Idle
    } else {
        &&& g1.curr_locale_index as int == (match Game::spec_find_locale(
            g0.all_locales@,
            g0.all_locales@[hit].code@,
        ) {
            Some(k) => k,
            None => g0.curr_locale_index as int,
        })
        &&& if released {
            &&& m1.state == MenuState::Primary
            &&& m1.locale_items@ == Seq::<LocaleItem>::empty()
            &&& act == MenuAction::FinishLanguageSelect
        } else {
            &&& m1.state == m0.state
            &&& m1.locale_items@ == hovered_locale_items(base, px, py)
            &&& act == MenuAction::Idle
        }
    }
}

impl Menu {
    /// One frame of the menu's controller: nothing happens unless the
    /// session shows the menu; then the showing screen handles the
    /// pointer, and the help screen waits for the global cancel key.
    pub fn process_controller(
        &mut self,
        mouse_x: i64,
        mouse_y: i64,
        mouse_released: bool,
        game: &mut Game,
        level: &mut Level,
        now_ms: u64,
    ) -> (r: MenuAction)
        requires
            old(self).inv(),
            old(game).inv(),
            old(level).inv(),
            old(level).timer@.pause <= now_ms <= MAX_TIME_MS,
            0 < now_ms,
            old(self).state == MenuState::LanguageSelect ==> old(self).locale_items@.len() == old(
                game,
            ).all_locales@.len(),
        ensures
            final(self).inv(),
            final(game).inv(),
            final(level).inv(),
            old(game).state != GameState::Menu ==> *final(self) == *old(self) && *final(game)
                == *old(game) && *final(level) == *old(level) && r == MenuAction::Idle,
            old(game).state == GameState::Menu && old(self).state == MenuState::Primary
                ==> spec_primary_outcome(
                *old(self),
                *final(self),
                *old(game),
                *final(game),
                *old(level),
                *final(level),
                mouse_x as int,
                mouse_y as int,
                mouse_released,
                now_ms as int,
                r,
            ),
            old(game).state == GameState::Menu && old(self).state == MenuState::Settings
                ==> spec_settings_outcome(
                *old(self),
                *final(self),
                *old(game),
                *final(game),
                *old(level),
                *final(level),
                mouse_x as int,
                mouse_y as int,
                mouse_released,
                r,
            ),
            old(game).state == GameState::Menu && old(self).state == MenuState::LanguageSelect
                ==> spec_language_outcome(
                *old(self),
                *final(self),
                *old(game),
                *final(game),
                *old(level),
                *final(level),
                mouse_x as int,
                mouse_y as int,
                mouse_released,
                r,
            ),
            old(game).state == GameState::Menu && old(self).state == MenuState::Help
                ==> *final(self) == *old(self) && *final(game) == *old(game) && *final(level)
                == *old(level) && r == MenuAction::Idle,
    {
        if !matches!(game.get_state(), GameState::Menu) {
            return MenuAction::Idle;
        }
        match self.state {
            MenuState::Primary => self.process_primary_menu_controller(
                mouse_x,
                mouse_y,
                mouse_released,
                game,
                level,
                now_ms,
            ),
            MenuState::Settings => self.process_settings_menu_controller(
                mouse_x,
                mouse_y,
                mouse_released,
                game,
            ),
            MenuState::LanguageSelect => self.process_language_selector_controller(
                mouse_x,
                mouse_y,
                mouse_released,
                game,
            ),
            MenuState::Help => MenuAction::Idle,
        }
    }

    fn process_primary_menu_controller(
        &mut self,
        mouse_x: i64,
        mouse_y: i64,
        mouse_released: bool,
        game: &mut Game,
        level: &mut Level,
        now_ms: u64,
    ) -> (r: MenuAction)
        requires
            old(self).inv(),
            old(game).inv(),
            old(level).inv(),
            old(level).timer@.pause <= now_ms <= MAX_TIME_MS,
            0 < now_ms,
            old(self).state == MenuState::Primary,
        ensures
            final(self).inv(),
            final(game).inv(),
            final(level).inv(),
            spec_primary_outcome(
                *old(self),
                *final(self),
                *old(game),
                *final(game),
                *old(level),
                *final(level),
                mouse_x as int,
                mouse_y as int,
                mouse_released,
                now_ms as int,
                r,
            ),
    {
        if self.items.len() == 5 && level.is_over() {
            self.update_primary_menu(game, 4);
        }
        let ghost base = self.items@;
        let base_len: usize = self.items.len();
        let (hovered, hit) = hover_menu_list(&self.items, mouse_x, mouse_y);
        self.items = hovered;
        let mut action = MenuAction::Idle;
        if mouse_released && hit >= 0 {
            let title = self.items[hit as usize].title;
            proof {
                assert(title == base[hit as int].title);
            }
            match title {
                MenuAllItems::Start => {
                    game.set_state(GameState::Game);
                    level.start(game, now_ms);
                    if base_len == 4 {
                        self.update_primary_menu(game, 5);
                    }
                },
                MenuAllItems::Continue => {
                    level.resume(game, now_ms);
                },
                MenuAllItems::Settings => {
                    self.state = MenuState::Settings;
                },
                MenuAllItems::Help => {
                    self.state = MenuState::Help;
                },
                MenuAllItems::Exit => {
                    action = MenuAction::Quit;
                },
                _ => {},
            }
        }
        action
    }

    fn process_settings_menu_controller(
        &mut self,
        mouse_x: i64,
        mouse_y: i64,
        mouse_released: bool,
        game: &mut Game,
    ) -> (r: MenuAction)
        requires
            old(self).inv(),
            old(game).inv(),
            old(self).state == MenuState::Settings,
        ensures
            final(self).inv(),
            final(game).inv(),
            forall|l: Level|
                spec_settings_outcome(
                    *old(self),
                    *final(self),
                    *old(game),
                    *final(game),
                    l,
                    l,
                    mouse_x as int,
                    mouse_y as int,
                    mouse_released,
                    r,
                ),
    {
        let ghost base = self.settings_items@;
        let (hovered, hit) = hover_menu_list(&self.settings_items, mouse_x, mouse_y);
        self.settings_items = hovered;
        let mut action = MenuAction::Idle;
        if mouse_released && hit >= 0 {
            let title = self.settings_items[hit as usize].title;
            proof {
                assert(title == base[hit as int].title);
            }
            match title {
                MenuAllItems::Difficulty => {
                    let d = game.get_difficulty();
                    game.change_difficulty(d);
                    action = MenuAction::SaveConfig;
                },
                MenuAllItems::Language => {
                    game.change_locale();
                    action = MenuAction::SaveConfig;
                },
                MenuAllItems::Fullscreen => {
                    game.toggle_fullscreen();
                    action = MenuAction::ToggleFullscreen;
                },
                MenuAllItems::ToggleFPS => {
                    game.toggle_fps_monitor();
                },
                MenuAllItems::Back => {
                    self.state = MenuState::Primary;
                },
                _ => {},
            }
        }
        action
    }

    fn process_language_selector_controller(
        &mut self,
        mouse_x: i64,
        mouse_y: i64,
        mouse_released: bool,
        game: &mut Game,
    ) -> (r: MenuAction)
        requires
            old(self).inv(),
            old(game).inv(),
            old(self).state == MenuState::LanguageSelect,
            old(self).locale_items@.len() == old(game).all_locales@.len(),
        ensures
            final(self).inv(),
            final(game).inv(),
            forall|l: Level|
                spec_language_outcome(
                    *old(self),
                    *final(self),
                    *old(game),
                    *final(game),
                    l,
                    l,
                    mouse_x as int,
                    mouse_y as int,
                    mouse_released,
                    r,
                ),
    {
        let (hovered, hit) = hover_locale_list(&self.locale_items, mouse_x, mouse_y);
        self.locale_items = hovered;
        if hit >= 0 {
            let code = game.get_all_locales()[hit as usize].get_code().clone();
            game.set_locale(code.as_str());
            if mouse_released {
                self.state = MenuState::Primary;
                self.locale_items = Vec::new();
                proof {
                    assert(self.locale_items@ =~= Seq::<LocaleItem>::empty());
                }
                return MenuAction::FinishLanguageSelect;
            }
        }
        MenuAction::Idle
    }
}

} // verus!
