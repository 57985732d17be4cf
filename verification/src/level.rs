use vstd::prelude::*;
use vstd::arithmetic::div_mod::lemma_fundamental_div_mod_converse;
use vstd::seq_lib::group_to_multiset_ensures;
use vstd::multiset::group_multiset_axioms;
use crate::game::{Game, GameDifficulty, GameMode, GameState};
use crate::timer::{spec_activate, spec_finish, spec_is_over, spec_pause, spec_resume, Timer,
    TimerModel, MAX_TIME_MS};
use crate::utils::{div_floor, generate_numbers_array, number_range_seq, vec_i32_contains, Button,
    Rect, UiColor, MAX_COORD};

verus! {

/// The grid is eight tiles wide and seven tall: 56 tiles.
pub const H_COUNT: i64 = 8;

pub const V_COUNT: i64 = 7;

pub const TILE_COUNT: usize = 56;

pub const TILE_WIDTH: i64 = 100;

pub const TILE_HEIGHT: i64 = 60;

/// The spacing between tiles adapts to the window inside these bounds.
pub const MIN_GAP: i64 = 20;

pub const MAX_GAP: i64 = 100;

// ---------------------------------------------------------------------------
// Geometry
// ---------------------------------------------------------------------------

/// The adaptive spacing along one axis: what window space remains after
/// the margin and the tiles, spread over the gaps between them, clamped
/// into [MIN_GAP, MAX_GAP].
pub open spec fn spec_gap(win: int, count: int, tile: int) -> int {
    let raw = (win - 600 - count * tile) / (count - 1);
    if raw > MAX_GAP {
        MAX_GAP as int
    } else if raw < MIN_GAP {
        MIN_GAP as int
    } else {
        raw
    }
}

/// The left edge of the tile in the given column, for a window width.
pub open spec fn spec_grid_x(w: int, col: int) -> int {
    let g = spec_gap(w, 8, 100);
    col * (100 + g) + (w - 8 * (100 + g) + g) / 2
}

/// The top edge of the tile in the given row, for a window height.
pub open spec fn spec_grid_y(h: int, row: int) -> int {
    let g = spec_gap(h, 7, 60);
    row * (60 + g) + (h - 7 * (60 + g) + g) / 2
}

fn compute_gap(win: i64, count: i64, tile: i64) -> (r: i64)
    requires
        2 <= count <= 10,
        0 < tile <= 100,
        0 < win <= MAX_COORD,
    ensures
        r == spec_gap(win as int, count as int, tile as int),
        MIN_GAP <= r <= MAX_GAP,
{
    proof {
        assert(0 < count * tile <= 1000) by (nonlinear_arith)
            requires
                2 <= count <= 10,
                0 < tile <= 100,
        ;
    }
    let raw = div_floor(win - 600 - count * tile, count - 1);
    if raw > MAX_GAP {
        MAX_GAP
    } else if raw < MIN_GAP {
        MIN_GAP
    } else {
        raw
    }
}

fn tile_rect(w: i64, h: i64, row: i64, col: i64) -> (r: Rect)
    requires
        0 < w <= MAX_COORD,
        0 < h <= MAX_COORD,
        0 <= row < 7,
        0 <= col < 8,
    ensures
        r.x == spec_grid_x(w as int, col as int),
        r.y == spec_grid_y(h as int, row as int),
        r.width == 100,
        r.height == 60,
        r.wf(),
{
    let gh = compute_gap(w, H_COUNT, TILE_WIDTH);
    let gv = compute_gap(h, V_COUNT, TILE_HEIGHT);
    proof {
        assert(0 <= col * (100 + gh) <= 1600) by (nonlinear_arith)
            requires
                0 <= col < 8,
                20 <= gh <= 100,
        ;
        assert(0 <= row * (60 + gv) <= 1120) by (nonlinear_arith)
            requires
                0 <= row < 7,
                20 <= gv <= 100,
        ;
    }
    let x = col * (100 + gh) + div_floor(w - 8 * (100 + gh) + gh, 2);
    let y = row * (60 + gv) + div_floor(h - 7 * (60 + gv) + gv, 2);
    Rect { x, y, width: 100, height: 60 }
}

/// Whether a level's rectangles all sit where the layout formulas place
/// them for the given window size.
pub open spec fn has_layout(l: Level, w: int, h: int) -> bool {
    &&& l.buttons@.len() == 56
    &&& forall|k: int|
        0 <= k < 56 ==> {
            &&& (#[trigger] l.buttons@[k]).x == spec_grid_x(w, k % 8)
            &&& l.buttons@[k].y == spec_grid_y(h, k / 8)
            &&& l.buttons@[k].width == 100
            &&& l.buttons@[k].height == 60
        }
    &&& l.btn_game_exit.rec == (Rect { x: (w - 160) as i64, y: 80, width: 150, height: 60 })
    &&& l.btn_after_game_try_again.rec == (Rect {
        x: (w / 2 - 250) as i64,
        y: (h / 2 + 100) as i64,
        width: 250,
        height: 60,
    })
    &&& l.btn_after_game_exit.rec == (Rect {
        x: (w / 2 + 50) as i64,
        y: (h / 2 + 100) as i64,
        width: 150,
        height: 60,
    })
}

/// Any two levels laid out for the same window size agree on all their
/// rectangles: the layout is a function of the window size alone, so
/// recomputing it a second time changes nothing.
pub proof fn lemma_layout_idempotent(l1: Level, l2: Level, w: int, h: int)
    requires
        has_layout(l1, w, h),
        has_layout(l2, w, h),
    ensures
        l1.buttons@ == l2.buttons@,
        l1.btn_game_exit.rec == l2.btn_game_exit.rec,
        l1.btn_after_game_try_again.rec == l2.btn_after_game_try_again.rec,
        l1.btn_after_game_exit.rec == l2.btn_after_game_exit.rec,
{
    assert(l1.buttons@ =~= l2.buttons@);
}

// ---------------------------------------------------------------------------
// The permutation of tile numbers
// ---------------------------------------------------------------------------

/// A full grid of numbers: each of 1..=56 exactly once.
pub open spec fn is_perm56(s: Seq<i32>) -> bool {
    s.len() == 56 && s.to_multiset() == number_range_seq(56).to_multiset()
}

/// How often a value occurs among the numbers 1..=n: once inside the
/// range, never outside it.
pub proof fn lemma_range_count(n: nat, v: i32)
    requires
        n <= 56,
    ensures
        number_range_seq(n).to_multiset().count(v) == if 1 <= v <= n {
            1int
        } else {
            0int
        },
    decreases n,
{
    broadcast use group_to_multiset_ensures;
    broadcast use group_multiset_axioms;

    if n == 0 {
        let s = number_range_seq(0);
        assert(s =~= Seq::<i32>::empty());
        assert(!s.contains(v));
        assert(s.to_multiset().count(v) == 0);
    } else {
        lemma_range_count((n - 1) as nat, v);
        let s = number_range_seq(n);
        let p = number_range_seq((n - 1) as nat);
        assert(s =~= p.push(n as i32));
        assert(s.to_multiset() =~= p.to_multiset().insert(n as i32));
    }
}

/// In a full grid every tile number lies in 1..=56 and every value of
/// 1..=56 is on some tile.
pub proof fn lemma_perm56_values(s: Seq<i32>)
    requires
        is_perm56(s),
    ensures
        forall|k: int| 0 <= k < 56 ==> 1 <= #[trigger] s[k] <= 56,
        forall|v: i32| 1 <= v <= 56 ==> #[trigger] s.contains(v),
{
    broadcast use group_to_multiset_ensures;

    assert forall|k: int| 0 <= k < 56 implies 1 <= #[trigger] s[k] <= 56 by {
        assert(s.contains(s[k]));
        assert(s.to_multiset().count(s[k]) > 0);
        lemma_range_count(56, s[k]);
    }
    assert forall|v: i32| 1 <= v <= 56 implies #[trigger] s.contains(v) by {
        lemma_range_count(56, v);
        assert(s.to_multiset().count(v) > 0);
    }
}

// ---------------------------------------------------------------------------
// The round model
// ---------------------------------------------------------------------------

/// The sequence of numbers a Vec<i32> holds, as mathematical integers.
pub open spec fn to_int_seq(s: Seq<i32>) -> Seq<int> {
    Seq::new(s.len(), |i: int| s[i] as int)
}

/// The mathematical state of a round.
#[verifier::ext_equal]
pub ghost struct RoundModel {
    pub numbers: Seq<int>,
    pub btns: Seq<Rect>,
    pub correct: Seq<int>,
    pub active: int,
    pub incorrect: int,
    pub score: int,
    pub fails: int,
    pub timer: TimerModel,
}

pub open spec fn contains_value(s: Seq<int>, v: int) -> bool {
    exists|k: int| 0 <= k < s.len() && s[k] == v
}

/// The invariant of a started round, at the model level.
pub open spec fn round_inv(m: RoundModel) -> bool {
    &&& m.btns.len() == 56
    &&& m.numbers.len() == 56
    &&& forall|k: int| 0 <= k < 56 ==> 1 <= #[trigger] m.numbers[k] <= 56
    &&& forall|v: int| 1 <= v <= 56 ==> #[trigger] contains_value(m.numbers, v)
    &&& m.correct.len() == m.score
    &&& 0 <= m.score <= 56
    &&& forall|k: int|
        0 <= k < m.correct.len() ==> 0 <= #[trigger] m.correct[k] < 56 && m.numbers[m.correct[k]]
            == k + 1
    &&& -1 <= m.active < 56
    &&& -1 <= m.incorrect < 56
    &&& 0 <= m.fails
    &&& m.timer.inv()
}

/// What one click on an unsolved tile does: the tile holding the next
/// number joins the solved set and the score grows; any other tile
/// becomes the highlighted mistake, and counts as a fail exactly when a
/// mistake was already highlighted.
pub open spec fn spec_click(m: RoundModel, i: int) -> RoundModel {
    if m.numbers[i] == m.score + 1 {
        RoundModel {
            correct: m.correct.push(i),
            incorrect: -1,
            score: m.score + 1,
            active: -1,
            ..m
        }
    } else {
        RoundModel {
            fails: if m.incorrect != -1 {
                m.fails + 1
            } else {
                m.fails
            },
            incorrect: i,
            active: -1,
            ..m
        }
    }
}

/// The first tile at or after position k that is not solved yet and lies
/// under the pointer; -1 when there is none. Earlier tiles win.
pub open spec fn first_hit_from(m: RoundModel, px: int, py: int, k: int) -> int
    decreases 56 - k,
{
    if k < 0 || k >= 56 {
        -1
    } else if !m.correct.contains(k) && m.btns[k].spec_contains(px, py) {
        k
    } else {
        first_hit_from(m, px, py, k + 1)
    }
}

/// One frame of pointer handling over the grid: hovering marks the tile
/// under the pointer, a release on it clicks it.
pub open spec fn spec_hover_scan(m: RoundModel, px: int, py: int, released: bool) -> RoundModel {
    let h = first_hit_from(m, px, py, 0);
    if h == -1 {
        RoundModel { active: -1, ..m }
    } else if released {
        spec_click(m, h)
    } else {
        RoundModel { active: h, ..m }
    }
}

/// A frame while the session shows the menu: a started round's timer is
/// paused; an unstarted round is untouched.
pub open spec fn spec_menu_frame(m: RoundModel, started: bool, now: int) -> RoundModel {
    if started {
        RoundModel { timer: spec_pause(m.timer, now), ..m }
    } else {
        m
    }
}

/// A frame while playing: a full grid wins the round; an expired timer
/// loses it; a release on the exit button leaves for the menu; otherwise
/// a not-yet-running timer is polled for activation, and a running one
/// lets the pointer act on the grid.
pub open spec fn spec_game_frame(
    m: RoundModel,
    exit_hit: bool,
    released: bool,
    px: int,
    py: int,
    now: int,
) -> (RoundModel, GameState) {
    if m.correct.len() == 56 {
        (RoundModel { timer: spec_finish(m.timer), ..m }, GameState::Win)
    } else if spec_is_over(m.timer, now) {
        (RoundModel { timer: spec_finish(m.timer), ..m }, GameState::Lose)
    } else if exit_hit && released {
        (m, GameState::Menu)
    } else if !m.timer.running {
        (RoundModel { timer: spec_activate(m.timer, now), ..m }, GameState::Game)
    } else {
        (spec_hover_scan(m, px, py, released), GameState::Game)
    }
}

// ---------------------------------------------------------------------------
// The round itself
// ---------------------------------------------------------------------------

/// What a freshly (re)started round looks like, relative to the round it
/// replaced: newly shuffled numbers, cleared counters, and a timer that
/// was just started at the given time with the given duration in
/// seconds; the geometry and labels carry over.
pub open spec fn spec_started_round(l1: Level, l0: Level, dur_secs: int, now: int) -> bool {
    &&& l1.started()
    &&& is_perm56(l1.numbers@)
    &&& l1.correct_buttons@.len() == 0
    &&& l1.score == 0
    &&& l1.fails == 0
    &&& l1.active_btn_index == -1
    &&& l1.incorrect_btn_index == -1
    &&& l1.timer@ == (TimerModel { running: false, start: now, pause: 0, dur: dur_secs * 1000 })
    &&& l1.buttons == l0.buttons
    &&& l1.btn_game_exit == l0.btn_game_exit
    &&& l1.btn_after_game_try_again == l0.btn_after_game_try_again
    &&& l1.btn_after_game_exit == l0.btn_after_game_exit
}

/// One timed play-through of the numbered grid: the shuffled numbers,
/// the tile rectangles, the click bookkeeping, and the countdown.
/// An empty numbers vector means no round was started yet.
pub struct Level {
    pub numbers: Vec<i32>,
    pub buttons: Vec<Rect>,
    pub active_btn_index: i32,
    pub incorrect_btn_index: i32,
    pub correct_buttons: Vec<i32>,
    pub score: i32,
    pub fails: i32,
    pub timer: Timer,
    pub btn_game_exit: Button,
    pub btn_after_game_try_again: Button,
    pub btn_after_game_exit: Button,
}

impl Level {
    pub open spec fn started(self) -> bool {
        self.numbers@.len() > 0
    }

    pub open spec fn model(self) -> RoundModel {
        RoundModel {
            numbers: to_int_seq(self.numbers@),
            btns: self.buttons@,
            correct: to_int_seq(self.correct_buttons@),
            active: self.active_btn_index as int,
            incorrect: self.incorrect_btn_index as int,
            score: self.score as int,
            fails: self.fails as int,
            timer: self.timer@,
        }
    }

    pub open spec fn inv(self) -> bool {
        &&& self.buttons@.len() == 56
        &&& forall|k: int| 0 <= k < 56 ==> (#[trigger] self.buttons@[k]).wf()
        &&& self.btn_game_exit.rec.wf()
        &&& self.btn_after_game_try_again.rec.wf()
        &&& self.btn_after_game_exit.rec.wf()
        &&& self.started() ==> is_perm56(self.numbers@)
        &&& self.started() ==> forall|k: int|
            0 <= k < 56 ==> 1 <= #[trigger] self.numbers@[k] <= 56
        &&& !self.started() ==> self.correct_buttons@.len() == 0 && self.score == 0
        &&& self.score as int == self.correct_buttons@.len()
        &&& self.correct_buttons@.len() <= 56
        &&& forall|k: int|
            0 <= k < self.correct_buttons@.len() ==> 0 <= #[trigger] self.correct_buttons@[k] < 56
                && self.numbers@[self.correct_buttons@[k] as int] == k + 1
        &&& -1 <= self.active_btn_index < 56
        &&& -1 <= self.incorrect_btn_index < 56
        &&& 0 <= self.fails
        &&& self.timer@.inv()
    }

    /// A started round's model satisfies the model-level invariant.
    pub proof fn lemma_model_inv(self)
        requires
            self.inv(),
            self.started(),
        ensures
            round_inv(self.model()),
    {
        let m = self.model();
        lemma_perm56_values(self.numbers@);
        assert forall|v: int| 1 <= v <= 56 implies #[trigger] contains_value(m.numbers, v) by {
            assert(self.numbers@.contains(v as i32));
            let k = choose|k: int| 0 <= k < self.numbers@.len() && self.numbers@[k] == v as i32;
            assert(m.numbers[k] == v);
        }
    }

    /// The countdown, in seconds, a fresh round gets: by difficulty, with
    /// a shorter table in Debug mode.
    pub open spec fn spec_timer_duration(mode: GameMode, d: GameDifficulty) -> int {
        if mode == GameMode::Release {
            match d {
                GameDifficulty::Easy => 180,
                GameDifficulty::Medium => 120,
                GameDifficulty::Hard => 120,
            }
        } else {
            match d {
                GameDifficulty::Easy => 180,
                GameDifficulty::Medium => 60,
                GameDifficulty::Hard => 10,
            }
        }
    }

    pub fn get_timer_duration(game: &Game) -> (r: i32)
        ensures
            r == Self::spec_timer_duration(game.mode, game.difficulty),
            0 < r <= 180,
    {
        if game.get_mode() == GameMode::Release {
            match game.get_difficulty() {
                GameDifficulty::Easy => 3 * 60,
                GameDifficulty::Medium => 2 * 60,
                GameDifficulty::Hard => 2 * 60,
            }
        } else {
            match game.get_difficulty() {
                GameDifficulty::Easy => 3 * 60,
                GameDifficulty::Medium => 60,
                GameDifficulty::Hard => 10,
            }
        }
    }

    /// A fresh, not yet started round, laid out for the session's window.
    pub fn new(game: &Game) -> (r: Level)
        requires
            game.inv(),
        ensures
            r.inv(),
            !r.started(),
            has_layout(r, game.window_width as int, game.window_height as int),
            r.correct_buttons@.len() == 0,
            r.score == 0,
            r.fails == 0,
            r.active_btn_index == -1,
            r.incorrect_btn_index == -1,
            r.timer@ == (TimerModel {
                running: false,
                start: 0,
                pause: 0,
                dur: Self::spec_timer_duration(game.mode, game.difficulty) * 1000,
            }),
            r.btn_game_exit.color == UiColor::White,
            r.btn_after_game_try_again.color == UiColor::White,
            r.btn_after_game_exit.color == UiColor::White,
            r.btn_game_exit.title@ == "Exit"@,
            r.btn_after_game_try_again.title@ == "Try Again"@,
            r.btn_after_game_exit.title@ == "Exit"@,
    {
        let w = game.get_window_width();
        let h = game.get_window_height();
        Level {
            numbers: Vec::new(),
            buttons: build_grid(w, h),
            active_btn_index: -1,
            incorrect_btn_index: -1,
            correct_buttons: Vec::new(),
            score: 0,
            fails: 0,
            timer: Timer::new(Self::get_timer_duration(game)),
            btn_game_exit: Button::new(
                Rect { x: w - 160, y: 80, width: 150, height: 60 },
                "Exit",
                UiColor::White,
            ),
            btn_after_game_try_again: Button::new(
                Rect { x: div_floor(w, 2) - 250, y: div_floor(h, 2) + 100, width: 250, height: 60 },
                "Try Again",
                UiColor::White,
            ),
            btn_after_game_exit: Button::new(
                Rect { x: div_floor(w, 2) + 50, y: div_floor(h, 2) + 100, width: 150, height: 60 },
                "Exit",
                UiColor::White,
            ),
        }
    }

    pub fn is_started(&self) -> (r: bool)
        ensures
            r == self.started(),
    {
        self.numbers.len() > 0
    }

    /// Whether a round was played to its end: it was started, and its
    /// timer was finished by a win or a loss and not merely paused.
    pub open spec fn spec_is_over(self) -> bool {
        &&& self.started()
        &&& !self.timer@.running
        &&& self.timer@.pause == 0
        &&& self.timer@.start == 0
    }

    pub fn is_over(&self) -> (r: bool)
        ensures
            r == self.spec_is_over(),
    {
        self.numbers.len() > 0 && !self.timer.is_active() && !self.timer.is_paused()
            && self.timer.start_is_zero()
    }

    /// Starts a fresh round: newly shuffled numbers, cleared counters,
    /// and a restarted countdown.
    pub fn start(&mut self, game: &Game, now_ms: u64)
        requires
            old(self).inv(),
            game.inv(),
            0 < now_ms <= MAX_TIME_MS,
        ensures
            final(self).inv(),
            spec_started_round(
                *final(self),
                *old(self),
                Self::spec_timer_duration(game.mode, game.difficulty),
                now_ms as int,
            ),
    {
        self.numbers = generate_numbers_array(TILE_COUNT as i32);
        self.active_btn_index = -1;
        self.incorrect_btn_index = -1;
        self.correct_buttons.clear();
        self.score = 0;
        self.fails = 0;
        self.timer = Timer::new(Self::get_timer_duration(game));
        self.timer.start(now_ms);
        proof {
            lemma_perm56_values(self.numbers@);
        }
    }

    /// Starts the round anew after it ended; the same reset as start.
    pub fn restart(&mut self, game: &Game, now_ms: u64)
        requires
            old(self).inv(),
            game.inv(),
            0 < now_ms <= MAX_TIME_MS,
        ensures
            final(self).inv(),
            spec_started_round(
                *final(self),
                *old(self),
                Self::spec_timer_duration(game.mode, game.difficulty),
                now_ms as int,
            ),
    {
        self.start(game, now_ms);
    }

    /// Returns to a paused round: the session plays again and the
    /// countdown resumes where it was paused.
    pub fn resume(&mut self, game: &mut Game, now_ms: u64)
        requires
            old(self).inv(),
            old(self).timer@.pause <= now_ms <= MAX_TIME_MS,
        ensures
            final(self).inv(),
            *final(game) == (Game { state: GameState::Game, ..*old(game) }),
            final(self).timer@ == spec_resume(old(self).timer@, now_ms as int),
            *final(self) == (Level { timer: final(self).timer, ..*old(self) }),
    {
        game.set_state(GameState::Game);
        self.timer.resume(now_ms);
    }

    /// Recomputes every rectangle for a new window size; nothing else of
    /// the round changes.
    pub fn update_btn_positions(&mut self, game: &Game)
        requires
            old(self).inv(),
            game.inv(),
        ensures
            final(self).inv(),
            has_layout(*final(self), game.window_width as int, game.window_height as int),
            *final(self) == (Level {
                buttons: final(self).buttons,
                btn_game_exit: Button {
                    rec: final(self).btn_game_exit.rec,
                    ..old(self).btn_game_exit
                },
                btn_after_game_try_again: Button {
                    rec: final(self).btn_after_game_try_again.rec,
                    ..old(self).btn_after_game_try_again
                },
                btn_after_game_exit: Button {
                    rec: final(self).btn_after_game_exit.rec,
                    ..old(self).btn_after_game_exit
                },
                ..*old(self)
            }),
    {
        let w = game.get_window_width();
        let h = game.get_window_height();
        self.buttons = build_grid(w, h);
        let exit_rec = Rect { x: w - 160, y: 80, width: 150, height: 60 };
        let try_rec = Rect { x: div_floor(w, 2) - 250, y: div_floor(h, 2) + 100, width: 250, height: 60 };
        let exit2_rec = Rect { x: div_floor(w, 2) + 50, y: div_floor(h, 2) + 100, width: 150, height: 60 };
        self.btn_game_exit.rec = exit_rec;
        self.btn_after_game_try_again.rec = try_rec;
        self.btn_after_game_exit.rec = exit2_rec;
    }
}

/// The 56 tile rectangles for a window size, row by row.
fn build_grid(w: i64, h: i64) -> (r: Vec<Rect>)
    requires
        0 < w <= MAX_COORD,
        0 < h <= MAX_COORD,
    ensures
        r@.len() == 56,
        forall|k: int|
            0 <= k < 56 ==> {
                &&& (#[trigger] r@[k]).x == spec_grid_x(w as int, k % 8)
                &&& r@[k].y == spec_grid_y(h as int, k / 8)
                &&& r@[k].width == 100
                &&& r@[k].height == 60
                &&& r@[k].wf()
            },
{
    let mut v: Vec<Rect> = Vec::new();
    let mut row: i64 = 0;
    while row < V_COUNT
        invariant
            0 <= row <= 7,
            v@.len() == row * 8,
            forall|k: int|
                0 <= k < v@.len() ==> {
                    &&& (#[trigger] v@[k]).x == spec_grid_x(w as int, k % 8)
                    &&& v@[k].y == spec_grid_y(h as int, k / 8)
                    &&& v@[k].width == 100
                    &&& v@[k].height == 60
                    &&& v@[k].wf()
                },
            0 < w <= MAX_COORD,
            0 < h <= MAX_COORD,
        decreases 7 - row,
    {
        let mut col: i64 = 0;
        while col < H_COUNT
            invariant
                0 <= row < 7,
                0 <= col <= 8,
                v@.len() == row * 8 + col,
                forall|k: int|
                    0 <= k < v@.len() ==> {
                        &&& (#[trigger] v@[k]).x == spec_grid_x(w as int, k % 8)
                        &&& v@[k].y == spec_grid_y(h as int, k / 8)
                        &&& v@[k].width == 100
                        &&& v@[k].height == 60
                        &&& v@[k].wf()
                    },
                0 < w <= MAX_COORD,
                0 < h <= MAX_COORD,
            decreases 8 - col,
        {
            let rec = tile_rect(w, h, row, col);
            proof {
                lemma_fundamental_div_mod_converse(row * 8 + col, 8, row as int, col as int);
            }
            v.push(rec);
            col = col + 1;
        }
        row = row + 1;
    }
    v
}


impl Level {
    /// The model's solved set holds an index exactly when the vector does.
    proof fn lemma_correct_contains(self, k: i32)
        ensures
            to_int_seq(self.correct_buttons@).contains(k as int) == self.correct_buttons@.contains(
                k,
            ),
    {
        let c = self.correct_buttons@;
        let m = to_int_seq(c);
        if c.contains(k) {
            let j = choose|j: int| 0 <= j < c.len() && c[j] == k;
            assert(m[j] == k as int);
            assert(m.contains(k as int));
        }
        if m.contains(k as int) {
            let j = choose|j: int| 0 <= j < m.len() && m[j] == k as int;
            assert(c[j] == k);
            assert(c.contains(k));
        }
    }

    /// One pointer pass over the unsolved tiles: the earliest tile under
    /// the pointer is hovered, and a release on it clicks it.
    #[verifier::loop_isolation(false)]
    fn scan_tiles(&mut self, mouse_x: i64, mouse_y: i64, released: bool)
        requires
            old(self).inv(),
            old(self).started(),
            old(self).fails < 0x7fff_ffff,
        ensures
            final(self).inv(),
            final(self).started(),
            final(self).model() == spec_hover_scan(
                old(self).model(),
                mouse_x as int,
                mouse_y as int,
                released,
            ),
            final(self).numbers == old(self).numbers,
            final(self).buttons == old(self).buttons,
            final(self).timer == old(self).timer,
            final(self).btn_game_exit == old(self).btn_game_exit,
            final(self).btn_after_game_try_again == old(self).btn_after_game_try_again,
            final(self).btn_after_game_exit == old(self).btn_after_game_exit,
    {
        let ghost m0 = old(self).model();
        let mut k: usize = 0;
        while k < TILE_COUNT
            invariant
                0 <= k <= 56,
                *self == *old(self),
                first_hit_from(m0, mouse_x as int, mouse_y as int, 0) == first_hit_from(
                    m0,
                    mouse_x as int,
                    mouse_y as int,
                    k as int,
                ),
            decreases 56 - k,
        {
            let solved = vec_i32_contains(&self.correct_buttons, k as i32);
            proof {
                self.lemma_correct_contains(k as i32);
            }
            let hit = if solved {
                false
            } else {
                self.buttons[k].contains(mouse_x, mouse_y)
            };
            if hit {
                proof {
                    assert(first_hit_from(m0, mouse_x as int, mouse_y as int, k as int)
                        == k as int);
                }
                self.active_btn_index = k as i32;
                if released {
                    if self.numbers[k] == self.score + 1 {
                        self.correct_buttons.push(k as i32);
                        self.incorrect_btn_index = -1;
                        self.score = self.score + 1;
                        self.active_btn_index = -1;
                        proof {
                            assert(to_int_seq(self.correct_buttons@) =~= m0.correct.push(k as int));
                            assert(self.model() =~= spec_click(m0, k as int));
                        }
                        return ;
                    } else {
                        if self.incorrect_btn_index != -1 {
                            self.fails = self.fails + 1;
                        }
                        self.incorrect_btn_index = k as i32;
                        self.active_btn_index = -1;
                        proof {
                            assert(self.model() =~= spec_click(m0, k as int));
                        }
                        return ;
                    }
                }
                proof {
                    assert(self.model() =~= (RoundModel { active: k as int, ..m0 }));
                }
                return ;
            }
            proof {
                assert(first_hit_from(m0, mouse_x as int, mouse_y as int, k as int)
                    == first_hit_from(m0, mouse_x as int, mouse_y as int, k as int + 1));
            }
            k = k + 1;
        }
        self.active_btn_index = -1;
        proof {
            assert(first_hit_from(m0, mouse_x as int, mouse_y as int, 56) == -1);
            assert(self.model() =~= (RoundModel { active: -1, ..m0 }));
        }
    }

    /// One frame of the round's controller. While the menu shows, a
    /// started round's countdown pauses. While playing, a full grid wins
    /// and an expired countdown loses the round, a release on the exit
    /// button returns to the menu, and otherwise the pointer acts on the
    /// grid once the countdown has passed its grace delay. On the win and
    /// lose screens, a release on Try Again restarts the round and one on
    /// Exit returns to the menu. Hover colors follow the pointer.
    pub fn process_controller(
        &mut self,
        mouse_x: i64,
        mouse_y: i64,
        mouse_released: bool,
        game: &mut Game,
        now_ms: u64,
    )
        requires
            old(self).inv(),
            old(game).inv(),
            old(self).fails < 0x7fff_ffff,
            old(self).timer@.start <= now_ms <= MAX_TIME_MS,
            0 < now_ms,
            old(game).state == GameState::Game ==> old(self).started(),
        ensures
            final(self).inv(),
            *final(game) == (Game { state: final(game).state, ..*old(game) }),
            final(self).buttons == old(self).buttons,
            final(self).btn_game_exit.rec == old(self).btn_game_exit.rec,
            final(self).btn_after_game_try_again.rec == old(self).btn_after_game_try_again.rec,
            final(self).btn_after_game_exit.rec == old(self).btn_after_game_exit.rec,
            final(self).btn_game_exit.title == old(self).btn_game_exit.title,
            final(self).btn_after_game_try_again.title == old(
                self,
            ).btn_after_game_try_again.title,
            final(self).btn_after_game_exit.title == old(self).btn_after_game_exit.title,
            old(game).state == GameState::Menu ==> ({
                &&& final(self).model() == spec_menu_frame(
                    old(self).model(),
                    old(self).started(),
                    now_ms as int,
                )
                &&& final(game).state == GameState::Menu
                &&& final(self).btn_game_exit.color == old(self).btn_game_exit.color
                &&& final(self).btn_after_game_try_again.color == old(
                    self,
                ).btn_after_game_try_again.color
                &&& final(self).btn_after_game_exit.color == old(self).btn_after_game_exit.color
            }),
            old(game).state == GameState::Game ==> ({
                let exit_hit = old(self).btn_game_exit.rec.spec_contains(
                    mouse_x as int,
                    mouse_y as int,
                );
                let r = spec_game_frame(
                    old(self).model(),
                    exit_hit,
                    mouse_released,
                    mouse_x as int,
                    mouse_y as int,
                    now_ms as int,
                );
                &&& final(self).model() == r.0
                &&& final(game).state == r.1
                &&& final(self).btn_game_exit.color == (if exit_hit && !mouse_released {
                    UiColor::LightGreen
                } else {
                    UiColor::White
                })
                &&& final(self).btn_after_game_try_again.color == old(
                    self,
                ).btn_after_game_try_again.color
                &&& final(self).btn_after_game_exit.color == old(self).btn_after_game_exit.color
            }),
            (old(game).state == GameState::Win || old(game).state == GameState::Lose) ==> ({
                let try_hit = old(self).btn_after_game_try_again.rec.spec_contains(
                    mouse_x as int,
                    mouse_y as int,
                );
                let exit2_hit = old(self).btn_after_game_exit.rec.spec_contains(
                    mouse_x as int,
                    mouse_y as int,
                );
                &&& final(self).btn_after_game_try_again.color == (if try_hit && !mouse_released {
                    UiColor::LightGreen
                } else {
                    UiColor::White
                })
                &&& final(self).btn_after_game_exit.color == (if exit2_hit && !mouse_released {
                    UiColor::LightGreen
                } else {
                    UiColor::White
                })
                &&& final(self).btn_game_exit.color == old(self).btn_game_exit.color
                &&& if try_hit && mouse_released {
                    &&& final(game).state == GameState::Game
                    &&& final(self).started()
                    &&& is_perm56(final(self).numbers@)
                    &&& final(self).correct_buttons@.len() == 0
                    &&& final(self).score == 0
                    &&& final(self).fails == 0
                    &&& final(self).active_btn_index == -1
                    &&& final(self).incorrect_btn_index == -1
                    &&& final(self).timer@ == (TimerModel {
                        running: false,
                        start: now_ms as int,
                        pause: 0,
                        dur: Self::spec_timer_duration(old(game).mode, old(game).difficulty)
                            * 1000,
                    })
                } else if exit2_hit && mouse_released {
                    &&& final(game).state == GameState::Menu
                    &&& final(self).model() == old(self).model()
                } else {
                    &&& final(game).state == old(game).state
                    &&& final(self).model() == old(self).model()
                }
            }),
    {
        let ghost m0 = old(self).model();
        match game.get_state() {
            GameState::Menu => {
                if self.is_started() {
                    self.timer.pause(now_ms);
                }
                proof {
                    assert(self.model() =~= spec_menu_frame(
                        m0,
                        old(self).started(),
                        now_ms as int,
                    ));
                }
            },
            GameState::Game => {
                let exit_hit = self.btn_game_exit.rec.contains(mouse_x, mouse_y);
                if exit_hit && !mouse_released {
                    self.btn_game_exit.set_color(UiColor::LightGreen);
                } else {
                    self.btn_game_exit.set_color(UiColor::White);
                }
                proof {
                    assert(self.model() =~= m0);
                }
                if self.correct_buttons.len() == TILE_COUNT {
                    game.set_state(GameState::Win);
                    self.timer.finish();
                    proof {
                        assert(self.model() =~= (RoundModel {
                            timer: spec_finish(m0.timer),
                            ..m0
                        }));
                    }
                } else if self.timer.is_over(now_ms) {
                    game.set_state(GameState::Lose);
                    self.timer.finish();
                    proof {
                        assert(self.model() =~= (RoundModel {
                            timer: spec_finish(m0.timer),
                            ..m0
                        }));
                    }
                } else if exit_hit && mouse_released {
                    game.set_state(GameState::Menu);
                } else if !self.timer.is_active() {
                    self.timer.activate(now_ms);
                    proof {
                        assert(self.model() =~= (RoundModel {
                            timer: spec_activate(m0.timer, now_ms as int),
                            ..m0
                        }));
                    }
                } else {
                    self.scan_tiles(mouse_x, mouse_y, mouse_released);
                }
            },
            GameState::Win | GameState::Lose => {
                let try_hit = self.btn_after_game_try_again.rec.contains(mouse_x, mouse_y);
                let exit2_hit = self.btn_after_game_exit.rec.contains(mouse_x, mouse_y);
                if try_hit && !mouse_released {
                    self.btn_after_game_try_again.set_color(UiColor::LightGreen);
                } else {
                    self.btn_after_game_try_again.set_color(UiColor::White);
                }
                if exit2_hit && !mouse_released {
                    self.btn_after_game_exit.set_color(UiColor::LightGreen);
                } else {
                    self.btn_after_game_exit.set_color(UiColor::White);
                }
                proof {
                    assert(self.model() =~= m0);
                }
                if try_hit && mouse_released {
                    game.set_state(GameState::Game);
                    self.restart(game, now_ms);
                } else if exit2_hit && mouse_released {
                    game.set_state(GameState::Menu);
                }
            },
        }
    }
}

// ---------------------------------------------------------------------------
// Laws of the round
// ---------------------------------------------------------------------------

/// A single wrong click leaves the fail count alone; a second wrong
/// click while the first mistake is still highlighted raises it by
/// exactly one. Only consecutive mistakes count.
pub proof fn lemma_misclick_fail_asymmetry(m: RoundModel, i: int, j: int)
    requires
        round_inv(m),
        m.incorrect == -1,
        0 <= i < 56,
        m.numbers[i] != m.score + 1,
        0 <= j < 56,
        m.numbers[j] != m.score + 1,
    ensures
        spec_click(m, i).fails == m.fails,
        spec_click(spec_click(m, i), j).fails == m.fails + 1,
{
}

/// The tile to click next: one holding the number score + 1.
pub open spec fn correct_click_target(m: RoundModel) -> int {
    choose|k: int| 0 <= k < 56 && m.numbers[k] == m.score + 1
}

/// The round after clicking the right tile the given number of times.
pub open spec fn play_correct(m: RoundModel, steps: nat) -> RoundModel
    decreases steps,
{
    if steps == 0 {
        m
    } else {
        play_correct(spec_click(m, correct_click_target(m)), (steps - 1) as nat)
    }
}

/// While the grid is not full there is a tile holding the next number;
/// it is not solved yet, and clicking it adds it to the solved set,
/// raises the score, and preserves the round invariant.
proof fn lemma_correct_click_step(m: RoundModel)
    requires
        round_inv(m),
        m.score < 56,
    ensures
        ({
            let i = correct_click_target(m);
            let c = spec_click(m, i);
            &&& 0 <= i < 56
            &&& m.numbers[i] == m.score + 1
            &&& !m.correct.contains(i)
            &&& round_inv(c)
            &&& c.score == m.score + 1
            &&& c.correct.len() == m.correct.len() + 1
            &&& c.numbers == m.numbers
            &&& c.btns == m.btns
            &&& c.timer == m.timer
            &&& c.fails == m.fails
        }),
{
    assert(contains_value(m.numbers, m.score + 1));
    let w = choose|k: int| 0 <= k < m.numbers.len() && m.numbers[k] == m.score + 1;
    assert(0 <= w < 56 && m.numbers[w] == m.score + 1);
    let i = correct_click_target(m);
    assert(0 <= i < 56 && m.numbers[i] == m.score + 1);
    if m.correct.contains(i) {
        let j = choose|j: int| 0 <= j < m.correct.len() && m.correct[j] == i;
        assert(m.numbers[m.correct[j]] == j + 1);
        assert(j + 1 <= m.score);
        assert(false);
    }
    let c = spec_click(m, i);
    assert forall|k: int|
        0 <= k < c.correct.len() implies 0 <= #[trigger] c.correct[k] < 56 && c.numbers[c.correct[k]]
        == k + 1 by {
        if k < m.correct.len() {
            assert(0 <= m.correct[k] < 56 && m.numbers[m.correct[k]] == k + 1);
        } else {
            assert(c.correct[k] == i);
        }
    }
}

/// Clicking the right tile repeatedly: each click raises the score by
/// one and touches nothing else of the round.
pub proof fn lemma_play_correct(m: RoundModel, steps: nat)
    requires
        round_inv(m),
        m.score + steps <= 56,
    ensures
        ({
            let r = play_correct(m, steps);
            &&& round_inv(r)
            &&& r.score == m.score + steps
            &&& r.correct.len() == m.score + steps
            &&& r.numbers == m.numbers
            &&& r.btns == m.btns
            &&& r.timer == m.timer
            &&& r.fails == m.fails
        }),
    decreases steps,
{
    if steps > 0 {
        lemma_correct_click_step(m);
        lemma_play_correct(spec_click(m, correct_click_target(m)), (steps - 1) as nat);
    }
}

/// Round completion: from any valid started round, clicking the tile
/// with the next number until all 56 tiles are solved and letting one
/// more frame run moves the session to Win and finishes the countdown,
/// which is then inactive and at no time over.
pub proof fn lemma_round_completion(
    m: RoundModel,
    exit_hit: bool,
    released: bool,
    px: int,
    py: int,
    now: int,
    t: int,
)
    requires
        round_inv(m),
    ensures
        ({
            let done = play_correct(m, (56 - m.score) as nat);
            let r = spec_game_frame(done, exit_hit, released, px, py, now);
            &&& done.correct.len() == 56
            &&& done.score == 56
            &&& r.1 == GameState::Win
            &&& r.0.timer == spec_finish(done.timer)
            &&& !r.0.timer.running
            &&& !spec_is_over(r.0.timer, t)
        }),
{
    lemma_play_correct(m, (56 - m.score) as nat);
}

} // verus!
