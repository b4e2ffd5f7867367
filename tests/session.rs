use game_client::input::{step_y, HeldKey, DEBOUNCE_MS};
use game_client::lifecycle::{next_phase, Phase};
use game_client::reconcile::{drift_between, reconcile, Entity, RECONCILE_THRESHOLD};
use game_client::session::{latency_estimate, App, Health, SessionConfig, Snapshot, STALE_MS};
use game_client::wire::{Position, RegisterResponseMessage, SnapshotMessage};

fn at(x: i32, y: i32) -> Entity {
    Entity { x: x * 1000, y: y * 1000, dx: 0, dy: 0 }
}

fn thousandths(bits: u32) -> i32 {
    (f32::from_bits(bits) * 1000.0).round() as i32
}

fn to_model(m: &SnapshotMessage) -> Snapshot {
    Snapshot {
        left_score: m.left_score,
        right_score: m.right_score,
        active: m.active,
        countdown: m.countdown,
        positions: m
            .positions
            .iter()
            .map(|p| Entity {
                x: thousandths(p.x),
                y: thousandths(p.y),
                dx: thousandths(p.dx),
                dy: thousandths(p.dy),
            })
            .collect(),
    }
}

fn wire_pos(x: f32, y: f32, dx: f32, dy: f32) -> Position {
    Position { x: x.to_bits(), y: y.to_bits(), dx: dx.to_bits(), dy: dy.to_bits() }
}

fn config(id: u32) -> SessionConfig {
    let identity = RegisterResponseMessage {
        id,
        width: 200,
        height: 50,
        speed: 5.0f32.to_bits(),
        radius: 2.0f32.to_bits(),
        paddle: 2.0f32.to_bits(),
    };
    SessionConfig::from_registration(&identity, 5000)
}

fn snapshot(countdown: i32, positions: Vec<Entity>) -> Snapshot {
    Snapshot { left_score: 3, right_score: 1, active: countdown <= 0, countdown, positions }
}

#[test]
fn small_drift_keeps_prediction() {
    let predicted = Entity { dx: 7, dy: -7, ..at(14, 25) };
    let authority = at(12, 25);
    assert_eq!(drift_between(&predicted, &authority), 2000);
    assert_eq!(reconcile(predicted, authority, RECONCILE_THRESHOLD), predicted);
}

#[test]
fn large_drift_takes_authority() {
    let predicted = Entity { dx: 7, dy: -7, ..at(30, 25) };
    let authority = Entity { dx: 1, dy: 1, ..at(12, 25) };
    assert_eq!(drift_between(&predicted, &authority), 18000);
    let r = reconcile(predicted, authority, RECONCILE_THRESHOLD);
    assert_eq!(r, Entity { x: 12000, y: 25000, dx: 7, dy: -7 });
}

#[test]
fn drift_exactly_at_threshold_is_kept() {
    let predicted = at(12, 30);
    assert_eq!(reconcile(predicted, at(12, 25), RECONCILE_THRESHOLD), predicted);
    let beyond = Entity { y: 30001, ..predicted };
    assert_eq!(reconcile(beyond, at(12, 25), RECONCILE_THRESHOLD).y, 25000);
}

#[test]
fn drift_uses_the_larger_axis() {
    assert_eq!(drift_between(&at(10, 10), &at(13, 4)), 6000);
    assert_eq!(drift_between(&Entity { x: i32::MIN, ..at(0, 0) }, &Entity { x: i32::MAX, ..at(0, 0) }), u32::MAX as u64);
}

#[test]
fn snapshot_scenario_activates_and_scores() {
    let wire = SnapshotMessage {
        left_score: 3,
        right_score: 1,
        active: true,
        countdown: 0,
        positions: vec![wire_pos(100.0, 25.0, 5.0, 5.0), wire_pos(12.0, 25.0, 0.0, 0.0)],
    };
    let decoded = SnapshotMessage::decode(&wire.encode()).unwrap();
    let mut app = App::new(config(1), 0);
    app.apply_snapshot(&to_model(&decoded), 10);
    assert_eq!(app.player_score, 3);
    assert_eq!(app.opponent_score, 1);
    assert_eq!(app.ball, Entity { x: 100000, y: 25000, dx: 5000, dy: 5000 });
    assert_eq!(app.player, Entity { x: 12000, y: 25000, dx: 0, dy: 0 });
    assert_eq!(app.phase, Phase::WaitingForPlayers);
    app.tick(16, 16);
    assert_eq!(app.phase, Phase::Active);
}

#[test]
fn scores_follow_the_side_of_player_two() {
    let mut app = App::new(config(2), 0);
    app.apply_snapshot(&snapshot(3, vec![at(1, 1), at(2, 2), at(3, 3)]), 5);
    assert_eq!(app.player_score, 1);
    assert_eq!(app.opponent_score, 3);
    assert_eq!(app.opponent, at(2, 2));
}

#[test]
fn corrupted_snapshot_is_skipped_and_next_applies() {
    let mut app = App::new(config(1), 0);
    let before = app;
    let good = SnapshotMessage {
        left_score: 2,
        right_score: 4,
        active: false,
        countdown: 3,
        positions: vec![wire_pos(50.0, 10.0, -1.0, 1.0), wire_pos(190.0, 25.0, 0.0, 0.0), wire_pos(10.0, 20.0, 0.0, 0.0)],
    };
    let mut bad = good.encode();
    bad.truncate(bad.len() - 3);
    assert!(SnapshotMessage::decode(&bad).is_err());
    assert_eq!(app.ball, before.ball);
    assert!(!app.snapshot_seen);
    let decoded = SnapshotMessage::decode(&good.encode()).unwrap();
    app.apply_snapshot(&to_model(&decoded), 40);
    assert_eq!(app.ball, Entity { x: 50000, y: 10000, dx: -1000, dy: 1000 });
    assert_eq!(app.opponent, at(10, 20));
    assert_eq!(app.player_score, 2);
    app.tick(41, 1);
    assert_eq!(app.phase, Phase::Countdown(3));
}

#[test]
fn remote_entities_are_not_predicted() {
    let mut app = App::new(config(1), 0);
    app.apply_snapshot(&snapshot(0, vec![Entity { dx: 5000, dy: 5000, ..at(100, 25) }, app.player, at(10, 5)]), 1);
    let ball = app.ball;
    let opponent = app.opponent;
    app.tick(2, 500);
    app.tick(3, 500);
    assert_eq!(app.ball, ball);
    assert_eq!(app.opponent, opponent);
}

#[test]
fn phase_never_goes_back() {
    assert_eq!(next_phase(Phase::WaitingForPlayers, false, 3), Phase::WaitingForPlayers);
    assert_eq!(next_phase(Phase::WaitingForPlayers, true, 3), Phase::Countdown(3));
    assert_eq!(next_phase(Phase::Countdown(3), true, 1), Phase::Countdown(1));
    assert_eq!(next_phase(Phase::Countdown(1), true, 0), Phase::Active);
    assert_eq!(next_phase(Phase::Countdown(1), true, -4), Phase::Active);
    assert_eq!(next_phase(Phase::Active, true, 5), Phase::Active);
    let mut app = App::new(config(1), 0);
    app.apply_snapshot(&snapshot(0, vec![]), 1);
    app.tick(2, 1);
    app.apply_snapshot(&snapshot(4, vec![]), 3);
    app.tick(4, 1);
    assert_eq!(app.phase, Phase::Active);
    assert_eq!(app.countdown, 4);
}

#[test]
fn latency_estimate_values() {
    assert_eq!(latency_estimate(Some(100), 130), Some(30));
    assert_eq!(latency_estimate(Some(100), 100), Some(0));
    assert_eq!(latency_estimate(Some(100), 99), None);
    assert_eq!(latency_estimate(None, 99), None);
    let mut app = App::new(config(1), 0);
    app.record_publish(1000);
    app.apply_snapshot(&snapshot(3, vec![]), 1045);
    assert_eq!(app.latency_ms, Some(45));
    assert_eq!(app.last_receive_ms, Some(1045));
}

#[test]
fn intent_clears_only_after_window() {
    let mut k = HeldKey::released(0);
    k.press(100);
    k.refresh(100 + DEBOUNCE_MS, DEBOUNCE_MS);
    assert!(k.pressed);
    k.refresh(101 + DEBOUNCE_MS, DEBOUNCE_MS);
    assert!(!k.pressed);
    assert_eq!(k.last_seen_ms, 100);
    let mut early = HeldKey { pressed: true, last_seen_ms: 500 };
    early.refresh(400, DEBOUNCE_MS);
    assert!(early.pressed);
}

#[test]
fn step_moves_and_clamps() {
    assert_eq!(step_y(25000, true, false, 5000, 100, 50000), 24500);
    assert_eq!(step_y(25000, false, true, 5000, 100, 50000), 25500);
    assert_eq!(step_y(25000, true, true, 5000, 100, 50000), 25000);
    assert_eq!(step_y(100, true, false, 5000, 1000, 50000), 0);
    assert_eq!(step_y(49900, false, true, 5000, 1000, 50000), 50000);
    assert_eq!(step_y(25000, false, true, u32::MAX, u32::MAX, 50000), 50000);
    assert_eq!(step_y(25000, false, false, 5000, 1000, 50000), 25000);
}

#[test]
fn movement_waits_for_active() {
    let mut app = App::new(config(1), 0);
    let start = app.player;
    app.handle_key_event('w', 10);
    app.tick(20, 100);
    assert_eq!(app.player, start);
    app.apply_snapshot(&snapshot(0, vec![]), 30);
    app.handle_key_event('w', 40);
    app.tick(50, 100);
    assert_eq!(app.phase, Phase::Active);
    assert_eq!(app.player.y, start.y - 500);
    app.tick(50 + 400, 100);
    assert!(!app.up.pressed);
    assert_eq!(app.player.y, start.y - 500);
    app.handle_key_event('s', 500);
    app.tick(510, 200);
    assert_eq!(app.player.y, start.y + 500);
}

#[test]
fn keys_map_to_intents_and_exit() {
    let mut app = App::new(config(1), 0);
    app.handle_key_event('x', 5);
    assert!(!app.up.pressed && !app.down.pressed && !app.exit);
    app.handle_key_event('s', 6);
    assert_eq!(app.down, HeldKey { pressed: true, last_seen_ms: 6 });
    app.handle_key_event('q', 7);
    assert!(app.exit);
}

#[test]
fn start_places_and_config() {
    let c = config(1);
    assert_eq!(c.board_width, 200000);
    assert_eq!(c.board_height, 50000);
    assert_eq!(c.threshold, 5000);
    let app = App::new(c, 0);
    assert_eq!(app.player, at(190, 25));
    assert_eq!(app.opponent, at(10, 25));
    assert_eq!(app.ball, Entity { x: 100000, y: 25000, dx: 5000, dy: 5000 });
    let huge = SessionConfig::from_registration(
        &RegisterResponseMessage { id: 1, width: u32::MAX, height: 3, speed: 0, radius: 0, paddle: 0 },
        0,
    );
    assert_eq!(huge.board_width, i32::MAX);
    assert_eq!(huge.board_height, 3000);
}

#[test]
fn health_reports_connection_state() {
    let mut app = App::new(config(1), 0);
    assert_eq!(app.health(10), Health::NoneReceived);
    app.record_publish(100);
    app.apply_snapshot(&snapshot(3, vec![]), 120);
    assert_eq!(app.health(120 + STALE_MS), Health::Live(Some(20)));
    assert_eq!(app.health(121 + STALE_MS), Health::Stale);
}

#[test]
fn tick_keeps_player_on_board_before_active() {
    let mut app = App::new(config(1), 0);
    app.apply_snapshot(&snapshot(3, vec![at(100, 25), Entity { y: -80000, ..at(190, 0) }]), 1);
    assert_eq!(app.player.y, -80000);
    app.tick(2, 16);
    assert_eq!(app.phase, Phase::Countdown(3));
    assert_eq!(app.player.y, 0);
    app.apply_snapshot(&snapshot(3, vec![at(100, 25), at(190, 90)]), 3);
    app.tick(4, 16);
    assert_eq!(app.player.y, 50000);
    let mut waiting = App::new(config(1), 0);
    waiting.player.y = -1000;
    waiting.tick(1, 16);
    assert_eq!(waiting.phase, Phase::WaitingForPlayers);
    assert_eq!(waiting.player.y, 0);
}
