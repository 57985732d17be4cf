use vstd::prelude::*;
use crate::game::{Game, GameState};
use crate::utils::UiColor;

verus! {

/// Positions are held in milli-pixels (thousandths of a pixel), so that
/// moving by speed times frame time is exact integer arithmetic.
pub const PLAYER_POS_LIMIT: i64 = 0x4_0000_0000_0000;

/// The longest frame the movement accepts, in milliseconds.
pub const MAX_FRAME_TIME_MS: u64 = 10_000_000;

/// Which movement keys are held this frame.
#[derive(Clone, Copy, PartialEq, Eq, Structural)]
pub struct PlayerInput {
    pub up: bool,
    pub down: bool,
    pub left: bool,
    pub right: bool,
}

/// A position shifted and held inside the playing bounds.
pub open spec fn clamp_pos(v: int) -> int {
    if v < -PLAYER_POS_LIMIT {
        -PLAYER_POS_LIMIT as int
    } else if v > PLAYER_POS_LIMIT {
        PLAYER_POS_LIMIT as int
    } else {
        v
    }
}

/// A steerable disc moved with four direction keys. Position, radius
/// and speed are in milli-pixels; speed is per millisecond, so the
/// default of 60 equals 60 pixels per second.
pub struct Player {
    pub x_mpx: i64,
    pub y_mpx: i64,
    pub speed_mpx_per_ms: i64,
    pub radius_mpx: i64,
    pub color: UiColor,
}

impl Player {
    pub open spec fn inv(self) -> bool {
        &&& -PLAYER_POS_LIMIT <= self.x_mpx <= PLAYER_POS_LIMIT
        &&& -PLAYER_POS_LIMIT <= self.y_mpx <= PLAYER_POS_LIMIT
        &&& 0 <= self.speed_mpx_per_ms <= 1000
        &&& 0 < self.radius_mpx
    }

    /// A red disc at the middle of the default window.
    pub fn new() -> (r: Player)
        ensures
            r.inv(),
            r.x_mpx == 800 * 1000,
            r.y_mpx == 450 * 1000,
            r.speed_mpx_per_ms == 60,
            r.radius_mpx == 30 * 1000,
            r.color == UiColor::Red,
    {
        Player {
            x_mpx: 800 * 1000,
            y_mpx: 450 * 1000,
            speed_mpx_per_ms: 60,
            radius_mpx: 30 * 1000,
            color: UiColor::Red,
        }
    }

    /// While a round is playing, each held key moves the disc by speed
    /// times the frame time along its axis, held inside the bounds;
    /// outside the playing state nothing moves.
    pub fn process_player_controller(&mut self, input: PlayerInput, frame_time_ms: u64, game: &Game)
        requires
            old(self).inv(),
            frame_time_ms <= MAX_FRAME_TIME_MS,
        ensures
            final(self).inv(),
            *final(self) == (Player {
                x_mpx: final(self).x_mpx,
                y_mpx: final(self).y_mpx,
                ..*old(self)
            }),
            ({
                let d = old(self).speed_mpx_per_ms * frame_time_ms;
                let moving = game.state == GameState::Game;
                let y1 = if moving && input.up {
                    clamp_pos(old(self).y_mpx - d)
                } else {
                    old(self).y_mpx as int
                };
                let y2 = if moving && input.down {
                    clamp_pos(y1 + d)
                } else {
                    y1
                };
                let x1 = if moving && input.left {
                    clamp_pos(old(self).x_mpx - d)
                } else {
                    old(self).x_mpx as int
                };
                let x2 = if moving && input.right {
                    clamp_pos(x1 + d)
                } else {
                    x1
                };
                final(self).x_mpx == x2 && final(self).y_mpx == y2
            }),
    {
        if matches!(game.get_state(), GameState::Game) {
            proof {
                assert(0 <= self.speed_mpx_per_ms * frame_time_ms <= 10_000_000_000) by (
                nonlinear_arith)
                    requires
                        0 <= self.speed_mpx_per_ms <= 1000,
                        0 <= frame_time_ms <= 10_000_000,
                ;
            }
            let d: i64 = self.speed_mpx_per_ms * (frame_time_ms as i64);
            if input.up {
                self.y_mpx = shift_clamped(self.y_mpx, -d);
            }
            if input.down {
                self.y_mpx = shift_clamped(self.y_mpx, d);
            }
            if input.left {
                self.x_mpx = shift_clamped(self.x_mpx, -d);
            }
            if input.right {
                self.x_mpx = shift_clamped(self.x_mpx, d);
            }
        }
    }
}

/// The position after a shift, held inside the playing bounds.
fn shift_clamped(v: i64, delta: i64) -> (r: i64)
    requires
        -PLAYER_POS_LIMIT <= v <= PLAYER_POS_LIMIT,
        -10_000_000_000 <= delta <= 10_000_000_000,
    ensures
        r == clamp_pos(v + delta),
{
    let nv: i64 = v + delta;
    if nv < -PLAYER_POS_LIMIT {
        -PLAYER_POS_LIMIT
    } else if nv > PLAYER_POS_LIMIT {
        PLAYER_POS_LIMIT
    } else {
        nv
    }
}

} // verus!
