use vstd::prelude::*;

use crate::input::{clamp, still_held, stepped_y, step_y, HeldKey, DEBOUNCE_MS};
use crate::lifecycle::{next_phase, next_phase_spec, Phase};
use crate::reconcile::{drift, reconcile, reconciled, Entity, RECONCILE_THRESHOLD, UNITS};
use crate::wire::RegisterResponseMessage;

verus! {

/// Time without a snapshot, in milliseconds, after which the connection
/// counts as stale.
pub const STALE_MS: u64 = 1000;

/// The configuration that a session runs with, lengths in thousandths of a
/// unit.
#[derive(Debug, Clone, Copy, PartialEq, Eq, Structural)]
pub struct SessionConfig {
    pub id: u32,
    pub board_width: i32,
    pub board_height: i32,
    pub speed: u32,
    pub threshold: u32,
    pub debounce_ms: u64,
    pub stale_ms: u64,
}

impl SessionConfig {
    pub open spec fn wf(&self) -> bool {
        self.board_width >= 0 && self.board_height >= 0
    }
}

/// `units` whole board units in thousandths, saturated at `i32::MAX`.
pub open spec fn scaled(units: u32) -> i32 {
    if units as int * 1000 > i32::MAX {
        i32::MAX
    } else {
        (units as int * 1000) as i32
    }
}

fn scale(units: u32) -> (r: i32)
    ensures
        r == scaled(units),
{
    let v: u64 = units as u64 * 1000;
    if v > i32::MAX as u64 {
        i32::MAX
    } else {
        v as i32
    }
}

impl SessionConfig {
    /// The configuration for the identity a registration gave. `speed` is the
    /// movement speed of the registration in thousandths of a unit per second.
    pub fn from_registration(identity: &RegisterResponseMessage, speed: u32) -> (r: SessionConfig)
        ensures
            r.wf(),
            r == (SessionConfig {
                id: identity.id,
                board_width: scaled(identity.width),
                board_height: scaled(identity.height),
                speed,
                threshold: RECONCILE_THRESHOLD,
                debounce_ms: DEBOUNCE_MS,
                stale_ms: STALE_MS,
            }),
    {
        SessionConfig {
            id: identity.id,
            board_width: scale(identity.width),
            board_height: scale(identity.height),
            speed,
            threshold: RECONCILE_THRESHOLD,
            debounce_ms: DEBOUNCE_MS,
            stale_ms: STALE_MS,
        }
    }
}

/// A decoded snapshot with its positions in session units.
#[derive(Debug, Clone)]
pub struct Snapshot {
    pub left_score: u8,
    pub right_score: u8,
    pub active: bool,
    pub countdown: i32,
    pub positions: Vec<Entity>,
}

/// What a snapshot holds, with its positions as a sequence.
pub struct SnapshotState {
    pub left_score: u8,
    pub right_score: u8,
    pub active: bool,
    pub countdown: i32,
    pub positions: Seq<Entity>,
}

impl View for Snapshot {
    type V = SnapshotState;

    open spec fn view(&self) -> SnapshotState {
        SnapshotState {
            left_score: self.left_score,
            right_score: self.right_score,
            active: self.active,
            countdown: self.countdown,
            positions: self.positions@,
        }
    }
}

/// How the connection looks to the player.
#[derive(Debug, Clone, Copy, PartialEq, Eq, Structural)]
pub enum Health {
    NoneReceived,
    Stale,
    Live(Option<u64>),
}

/// The shared session record.
#[derive(Debug, Clone, Copy)]
pub struct App {
    pub config: SessionConfig,
    pub player: Entity,
    pub opponent: Entity,
    pub ball: Entity,
    pub player_score: u8,
    pub opponent_score: u8,
    pub phase: Phase,
    pub snapshot_seen: bool,
    pub countdown: i32,
    pub active: bool,
    pub last_publish_ms: Option<u64>,
    pub last_receive_ms: Option<u64>,
    pub latency_ms: Option<u64>,
    pub up: HeldKey,
    pub down: HeldKey,
    pub exit: bool,
}

/// The snapshot slot of the other player: player 1 faces player 2, any other
/// player faces player 1.
pub open spec fn opponent_slot(id: u32) -> int {
    if id == 1 {
        2
    } else {
        1
    }
}

/// Time from a publish at `sent` to a receipt at `received`, when both are
/// known and in order.
pub open spec fn latency_of(sent: Option<u64>, received: u64) -> Option<u64> {
    match sent {
        Some(t) => if t <= received {
            Some((received - t) as u64)
        } else {
            None
        },
        None => None,
    }
}

/// The latency estimate for a snapshot received at `received_ms`.
pub fn latency_estimate(sent_ms: Option<u64>, received_ms: u64) -> (r: Option<u64>)
    ensures
        r == latency_of(sent_ms, received_ms),
{
    match sent_ms {
        Some(t) => if t <= received_ms {
            Some(received_ms - t)
        } else {
            None
        },
        None => None,
    }
}

/// For publish and receipt times in order, the latency estimate is the
/// non-negative time between them.
pub proof fn lemma_latency_non_negative(sent: u64, received: u64)
    requires
        sent <= received,
    ensures
        latency_of(Some(sent), received) == Some((received - sent) as u64),
        received - sent >= 0,
{
}

/// The record after a snapshot received at `now`.
pub open spec fn applied(a: App, s: SnapshotState, now: u64) -> App {
    let id = a.config.id;
    let n = s.positions.len();
    App {
        ball: if n > 0 {
            s.positions[0]
        } else {
            a.ball
        },
        player: if 1 <= id < n {
            reconciled(a.player, s.positions[id as int], a.config.threshold)
        } else {
            a.player
        },
        opponent: if opponent_slot(id) < n {
            s.positions[opponent_slot(id)]
        } else {
            a.opponent
        },
        player_score: if id == 1 {
            s.left_score
        } else {
            s.right_score
        },
        opponent_score: if id == 1 {
            s.right_score
        } else {
            s.left_score
        },
        snapshot_seen: true,
        countdown: s.countdown,
        active: s.active,
        last_receive_ms: Some(now),
        latency_ms: latency_of(a.last_publish_ms, now),
        ..a
    }
}

/// The record after a tick at `now` that covers `dt_ms` milliseconds. Every
/// tick keeps the player within `[0, board_height]`; only an active session
/// moves it.
pub open spec fn ticked(a: App, now: u64, dt_ms: u32) -> App {
    let up = HeldKey { pressed: still_held(a.up, now, a.config.debounce_ms), ..a.up };
    let down = HeldKey { pressed: still_held(a.down, now, a.config.debounce_ms), ..a.down };
    let phase = next_phase_spec(a.phase, a.snapshot_seen, a.countdown);
    App {
        up,
        down,
        phase,
        player: if phase is Active {
            Entity {
                y: stepped_y(
                    a.player.y,
                    up.pressed,
                    down.pressed,
                    a.config.speed,
                    dt_ms,
                    a.config.board_height,
                ) as i32,
                ..a.player
            }
        } else {
            Entity { y: clamp(a.player.y as int, 0, a.config.board_height as int) as i32, ..a.player }
        },
        ..a
    }
}

impl App {
    /// Well formed: a valid configuration, and a phase past waiting only once
    /// a snapshot has been seen.
    pub open spec fn wf(&self) -> bool {
        &&& self.config.wf()
        &&& !(self.phase is WaitingForPlayers) ==> self.snapshot_seen
    }

    /// A session waiting for players, with the entities at their start
    /// places: the player near the right edge, the opponent near the left,
    /// the ball in the middle.
    pub fn new(config: SessionConfig, now_ms: u64) -> (r: App)
        requires
            config.wf(),
        ensures
            r.wf(),
            r.config == config,
            r.phase == Phase::WaitingForPlayers,
            !r.snapshot_seen,
            r.player == (Entity {
                x: if config.board_width >= 10 * UNITS {
                    (config.board_width - 10 * UNITS) as i32
                } else {
                    0
                },
                y: (config.board_height / 2) as i32,
                dx: 0,
                dy: 0,
            }),
            r.opponent == (Entity {
                x: if config.board_width >= 10 * UNITS {
                    (10 * UNITS) as i32
                } else {
                    config.board_width
                },
                y: (config.board_height / 2) as i32,
                dx: 0,
                dy: 0,
            }),
            r.ball == (Entity {
                x: (config.board_width / 2) as i32,
                y: (config.board_height / 2) as i32,
                dx: (5 * UNITS) as i32,
                dy: (5 * UNITS) as i32,
            }),
            r.player_score == 0,
            r.opponent_score == 0,
            r.countdown == 0,
            !r.active,
            r.last_publish_ms is None,
            r.last_receive_ms is None,
            r.latency_ms is None,
            r.up == HeldKey::released_spec(now_ms),
            r.down == HeldKey::released_spec(now_ms),
            !r.exit,
    {
        let margin: i32 = 10 * UNITS;
        let near_left: i32 = if config.board_width >= margin {
            margin
        } else {
            config.board_width
        };
        let near_right: i32 = if config.board_width >= margin {
            config.board_width - margin
        } else {
            0
        };
        let mid_y: i32 = config.board_height / 2;
        App {
            config,
            player: Entity { x: near_right, y: mid_y, dx: 0, dy: 0 },
            opponent: Entity { x: near_left, y: mid_y, dx: 0, dy: 0 },
            ball: Entity { x: config.board_width / 2, y: mid_y, dx: 5 * UNITS, dy: 5 * UNITS },
            player_score: 0,
            opponent_score: 0,
            phase: Phase::WaitingForPlayers,
            snapshot_seen: false,
            countdown: 0,
            active: false,
            last_publish_ms: None,
            last_receive_ms: None,
            latency_ms: None,
            up: HeldKey::released(now_ms),
            down: HeldKey::released(now_ms),
            exit: false,
        }
    }

    /// Applies a snapshot received at `now_ms`: scores and lifecycle fields
    /// are taken as they are, the ball and the opponent are overwritten, and
    /// the player's own slot goes through reconciliation.
    pub fn apply_snapshot(&mut self, snapshot: &Snapshot, now_ms: u64)
        requires
            old(self).wf(),
        ensures
            final(self).wf(),
            *final(self) == applied(*old(self), snapshot@, now_ms),
    {
        let id = self.config.id;
        let n = snapshot.positions.len();
        if n > 0 {
            self.ball = snapshot.positions[0];
        }
        if 1 <= id && (id as usize) < n {
            self.player = reconcile(self.player, snapshot.positions[id as usize], self.config.threshold);
        }
        let other: usize = if id == 1 {
            2
        } else {
            1
        };
        if other < n {
            self.opponent = snapshot.positions[other];
        }
        if id == 1 {
            self.player_score = snapshot.left_score;
            self.opponent_score = snapshot.right_score;
        } else {
            self.player_score = snapshot.right_score;
            self.opponent_score = snapshot.left_score;
        }
        self.snapshot_seen = true;
        self.countdown = snapshot.countdown;
        self.active = snapshot.active;
        self.latency_ms = latency_estimate(self.last_publish_ms, now_ms);
        self.last_receive_ms = Some(now_ms);
    }

    /// Records that the player's state was published at `now_ms`.
    pub fn record_publish(&mut self, now_ms: u64)
        requires
            old(self).wf(),
        ensures
            final(self).wf(),
            *final(self) == (App { last_publish_ms: Some(now_ms), ..*old(self) }),
    {
        self.last_publish_ms = Some(now_ms);
    }

    /// One simulation tick at `now_ms` covering `dt_ms` milliseconds: stale
    /// intents clear, the phase is evaluated, once active the player moves,
    /// and in every phase the player is kept on the board.
    pub fn tick(&mut self, now_ms: u64, dt_ms: u32)
        requires
            old(self).wf(),
        ensures
            final(self).wf(),
            *final(self) == ticked(*old(self), now_ms, dt_ms),
    {
        self.up.refresh(now_ms, self.config.debounce_ms);
        self.down.refresh(now_ms, self.config.debounce_ms);
        self.phase = next_phase(self.phase, self.snapshot_seen, self.countdown);
        if matches!(self.phase, Phase::Active) {
            self.player.y = step_y(
                self.player.y,
                self.up.pressed,
                self.down.pressed,
                self.config.speed,
                dt_ms,
                self.config.board_height,
            );
        } else {
            self.player.y = step_y(self.player.y, false, false, 0, 0, self.config.board_height);
        }
    }

    /// Handles a key press: `q` ends the session, `w` holds the intent to move
    /// up and `s` the intent to move down; other keys do nothing.
    pub fn handle_key_event(&mut self, code: char, now_ms: u64)
        requires
            old(self).wf(),
        ensures
            final(self).wf(),
            *final(self) == (if code == 'q' {
                App { exit: true, ..*old(self) }
            } else if code == 'w' {
                App { up: HeldKey { pressed: true, last_seen_ms: now_ms }, ..*old(self) }
            } else if code == 's' {
                App { down: HeldKey { pressed: true, last_seen_ms: now_ms }, ..*old(self) }
            } else {
                *old(self)
            }),
    {
        if code == 'q' {
            self.exit();
        } else if code == 'w' {
            self.up.press(now_ms);
        } else if code == 's' {
            self.down.press(now_ms);
        }
    }

    /// Ends the session at the next loop iteration.
    pub fn exit(&mut self)
        ensures
            *final(self) == (App { exit: true, ..*old(self) }),
    {
        self.exit = true;
    }

    /// The connection indicator at `now_ms`: nothing received yet, stale once
    /// more than `stale_ms` have passed since the last snapshot, else live
    /// with the latency estimate.
    pub fn health(&self, now_ms: u64) -> (r: Health)
        ensures
            r == (match self.last_receive_ms {
                None => Health::NoneReceived,
                Some(t) => if now_ms >= t && now_ms - t > self.config.stale_ms {
                    Health::Stale
                } else {
                    Health::Live(self.latency_ms)
                },
            }),
    {
        match self.last_receive_ms {
            None => Health::NoneReceived,
            Some(t) => if now_ms >= t && now_ms - t > self.config.stale_ms {
                Health::Stale
            } else {
                Health::Live(self.latency_ms)
            },
        }
    }
}

/// Every tick leaves the player within `[0, board_height]`, whatever the
/// phase and whatever a snapshot put there before.
pub proof fn lemma_tick_keeps_player_on_board(a: App, now: u64, dt_ms: u32)
    requires
        a.wf(),
    ensures
        0 <= ticked(a, now, dt_ms).player.y <= a.config.board_height,
{
}

/// A snapshot whose slot for the local player (an identifier of at least 1,
/// slot 0 being the ball) drifts beyond the threshold from the prediction
/// replaces the predicted location with the authoritative one exactly, and
/// keeps the predicted velocity.
pub proof fn lemma_snapshot_corrects_large_drift(a: App, s: SnapshotState, now: u64)
    requires
        1 <= a.config.id < s.positions.len(),
        drift(a.player, s.positions[a.config.id as int]) > a.config.threshold,
    ensures
        applied(a, s, now).player.x == s.positions[a.config.id as int].x,
        applied(a, s, now).player.y == s.positions[a.config.id as int].y,
        applied(a, s, now).player.dx == a.player.dx,
        applied(a, s, now).player.dy == a.player.dy,
{
}

/// A snapshot whose slot for the local player is within the threshold of the
/// prediction leaves the player unchanged.
pub proof fn lemma_snapshot_keeps_close_prediction(a: App, s: SnapshotState, now: u64)
    requires
        1 <= a.config.id < s.positions.len(),
        drift(a.player, s.positions[a.config.id as int]) <= a.config.threshold,
    ensures
        applied(a, s, now).player == a.player,
{
}

/// In a two-player session (identifiers 1 and 2, so at most three slots)
/// every remote player slot of a snapshot is the one the opponent takes, and
/// the ball is always slot 0.
pub proof fn lemma_two_player_remotes_follow_snapshot(a: App, s: SnapshotState, now: u64)
    requires
        a.config.id == 1 || a.config.id == 2,
        s.positions.len() <= 3,
    ensures
        s.positions.len() > 0 ==> applied(a, s, now).ball == s.positions[0],
        forall|k: int|
            1 <= k < s.positions.len() && k != a.config.id ==> applied(a, s, now).opponent
                == #[trigger] s.positions[k],
{
}

/// The ball and the opponent always hold the latest authoritative values: a
/// snapshot overwrites them with its slots, and a tick leaves them alone.
pub proof fn lemma_remote_entities_are_authoritative(
    a: App,
    s: SnapshotState,
    now: u64,
    dt_ms: u32,
)
    ensures
        s.positions.len() > 0 ==> applied(a, s, now).ball == s.positions[0],
        opponent_slot(a.config.id) < s.positions.len() ==> applied(a, s, now).opponent
            == s.positions[opponent_slot(a.config.id)],
        ticked(a, now, dt_ms).ball == a.ball,
        ticked(a, now, dt_ms).opponent == a.opponent,
{
}

} // verus!
