use game_server::game::{ApplyOutcome, GameState};
use game_server::message::{ClientCommand, COORD_LIMIT};

fn join(name: &str) -> ClientCommand {
    ClientCommand::Join { name: name.to_string() }
}

#[test]
fn join_assigns_fresh_ids() {
    let mut g = GameState::new();
    assert_eq!(g.apply_command(10, &join("a")), ApplyOutcome::Joined { id: 1 });
    assert_eq!(g.apply_command(11, &join("b")), ApplyOutcome::Joined { id: 2 });
    assert_eq!(g.apply_command(12, &join("c")), ApplyOutcome::Joined { id: 3 });
    let ids: Vec<u64> = g.players.iter().map(|p| p.id).collect();
    assert_eq!(ids, vec![1, 2, 3]);
}

#[test]
fn join_twice_from_same_connection_ignored() {
    let mut g = GameState::new();
    assert_eq!(g.apply_command(10, &join("a")), ApplyOutcome::Joined { id: 1 });
    assert_eq!(g.apply_command(10, &join("a")), ApplyOutcome::JoinIgnored);
    assert_eq!(g.players.len(), 1);
}

#[test]
fn ids_not_reused_after_reconnect() {
    // A "reconnect" arrives on a fresh connection handle; the id counter
    // never goes backwards, so the new player gets a new id.
    let mut g = GameState::new();
    assert_eq!(g.apply_command(10, &join("a")), ApplyOutcome::Joined { id: 1 });
    assert_eq!(g.apply_command(20, &join("a")), ApplyOutcome::Joined { id: 2 });
    assert_ne!(g.players[0].id, g.players[1].id);
}

#[test]
fn new_player_starts_at_origin_with_full_hp() {
    let mut g = GameState::new();
    g.apply_command(10, &join("a"));
    assert_eq!(g.players[0].x, 0);
    assert_eq!(g.players[0].y, 0);
    assert_eq!(g.players[0].hp, 100);
}

#[test]
fn move_routes_to_owning_connection_only() {
    let mut g = GameState::new();
    g.apply_command(10, &join("a"));
    g.apply_command(11, &join("b"));
    let r = g.apply_command(11, &ClientCommand::Move { dx: 1000, dy: -500 });
    assert_eq!(r, ApplyOutcome::Moved);
    assert_eq!((g.players[0].x, g.players[0].y), (0, 0));
    assert_eq!((g.players[1].x, g.players[1].y), (1000, -500));
}

#[test]
fn move_from_unknown_connection_is_noop() {
    let mut g = GameState::new();
    g.apply_command(10, &join("a"));
    let r = g.apply_command(99, &ClientCommand::Move { dx: 1000, dy: 0 });
    assert_eq!(r, ApplyOutcome::MoveIgnored);
    assert_eq!(g.players[0].x, 0);
}

#[test]
fn move_clamps_at_world_bounds() {
    let mut g = GameState::new();
    g.apply_command(10, &join("a"));
    let r = g.apply_command(10, &ClientCommand::Move { dx: i64::MAX, dy: i64::MIN });
    assert_eq!(r, ApplyOutcome::Moved);
    assert_eq!(g.players[0].x, COORD_LIMIT);
    assert_eq!(g.players[0].y, -COORD_LIMIT);
    // and it stays clamped
    g.apply_command(10, &ClientCommand::Move { dx: 1, dy: -1 });
    assert_eq!(g.players[0].x, COORD_LIMIT);
    assert_eq!(g.players[0].y, -COORD_LIMIT);
}

#[test]
fn attack_validates_target_without_resolving() {
    let mut g = GameState::new();
    g.apply_command(10, &join("a"));
    let r = g.apply_command(10, &ClientCommand::Attack { target: 1 });
    assert_eq!(r, ApplyOutcome::AttackValidated);
    let r2 = g.apply_command(10, &ClientCommand::Attack { target: 99 });
    assert_eq!(r2, ApplyOutcome::AttackUnknownTarget);
    // neither outcome changed anything
    assert_eq!(g.players.len(), 1);
    assert_eq!((g.players[0].x, g.players[0].y, g.players[0].hp), (0, 0, 100));
}

#[test]
fn snapshot_copies_roster() {
    let mut g = GameState::new();
    g.apply_command(10, &join("a"));
    g.apply_command(11, &join("b"));
    let snap = g.snapshot();
    assert_eq!(snap.len(), 2);
    assert_eq!(snap[0].id, 1);
    assert_eq!(snap[1].id, 2);
    // mutating the world afterwards does not touch the copy
    g.apply_command(10, &ClientCommand::Move { dx: 5, dy: 5 });
    assert_eq!(snap[0].x, 0);
}
