use game_server::registry::Registry;
use game_server::server::{IngestOutcome, ServerCore, CMD_QUEUE_CAP, SNAP_QUEUE_CAP};

#[test]
fn registry_handles_are_stable_and_unique() {
    let mut r = Registry::new();
    assert_eq!(r.register(), Some(1));
    assert_eq!(r.register(), Some(2));
    assert_eq!(r.register(), Some(3));
    r.unregister(2);
    assert_eq!(r.members(), vec![1, 3]);
    // removing again from the other teardown path is harmless
    r.unregister(2);
    assert_eq!(r.members(), vec![1, 3]);
    assert!(r.contains(1));
    assert!(!r.contains(2));
    // a later registration never reuses the removed handle
    assert_eq!(r.register(), Some(4));
}

#[test]
fn end_to_end_join_then_move() {
    let mut core = ServerCore::new();
    let a = core.on_connect().unwrap();
    let b = core.on_connect().unwrap();

    // client A joins; within one tick every connection gets a snapshot
    // holding one player at the origin with full hp and a fresh id.
    let r = core.on_line(a, "{\"type\":\"Join\",\"name\":\"x\"}");
    assert!(matches!(r, IngestOutcome::Queued));
    core.tick();
    let (line, recipients) = core.next_broadcast().unwrap();
    assert_eq!(recipients, vec![a, b]);
    assert_eq!(
        line,
        "{\"type\":\"WorldSnapshot\",\"players\":[{\"id\":1,\"x\":0.000,\"y\":0.000,\"hp\":100}]}\n"
    );

    // A moves by 1.0; the next snapshot shows exactly that player moved.
    let r = core.on_line(a, "{\"type\":\"Move\",\"x\":1.0,\"y\":0.0}");
    assert!(matches!(r, IngestOutcome::Queued));
    core.tick();
    let (line2, recipients2) = core.next_broadcast().unwrap();
    assert_eq!(recipients2, vec![a, b]);
    assert_eq!(
        line2,
        "{\"type\":\"WorldSnapshot\",\"players\":[{\"id\":1,\"x\":1.000,\"y\":0.000,\"hp\":100}]}\n"
    );
}

#[test]
fn malformed_line_is_dropped_connection_stays() {
    let mut core = ServerCore::new();
    let a = core.on_connect().unwrap();
    let r = core.on_line(a, "{\"type\":\"Bogus\"}");
    assert!(matches!(r, IngestOutcome::Malformed));
    assert_eq!(core.world.players.len(), 0);
    core.tick();
    assert_eq!(core.world.players.len(), 0);
    // the connection is still registered and later valid commands work
    assert!(core.registry.contains(a));
    let r2 = core.on_line(a, "{\"type\":\"Join\",\"name\":\"x\"}");
    assert!(matches!(r2, IngestOutcome::Queued));
    core.tick();
    assert_eq!(core.world.players.len(), 1);
}

#[test]
fn disconnect_removes_from_broadcast_recipients() {
    let mut core = ServerCore::new();
    let a = core.on_connect().unwrap();
    let b = core.on_connect().unwrap();
    core.on_line(a, "{\"type\":\"Join\",\"name\":\"x\"}");
    core.tick();
    let (_, recipients) = core.next_broadcast().unwrap();
    assert_eq!(recipients, vec![a, b]);

    core.on_disconnect(a);
    core.tick();
    let (_, recipients2) = core.next_broadcast().unwrap();
    assert_eq!(recipients2, vec![b]);
}

#[test]
fn write_error_removes_connection() {
    let mut core = ServerCore::new();
    let a = core.on_connect().unwrap();
    let b = core.on_connect().unwrap();
    core.on_write_error(b);
    core.tick();
    let (_, recipients) = core.next_broadcast().unwrap();
    assert_eq!(recipients, vec![a]);
    // both teardown paths racing on the same handle stay consistent
    core.on_write_error(b);
    core.on_disconnect(b);
    core.tick();
    let (_, recipients2) = core.next_broadcast().unwrap();
    assert_eq!(recipients2, vec![a]);
}

#[test]
fn stalled_broadcaster_never_blocks_the_simulation() {
    let mut core = ServerCore::new();
    let a = core.on_connect().unwrap();
    core.on_line(a, "{\"type\":\"Join\",\"name\":\"x\"}");
    // nobody drains the snapshot queue; the simulation keeps ticking
    for _ in 0..(SNAP_QUEUE_CAP + 50) {
        core.tick();
    }
    assert_eq!(core.snapshots.items.len(), SNAP_QUEUE_CAP);
    // and commands are still being applied
    let r = core.on_line(a, "{\"type\":\"Move\",\"x\":1.0,\"y\":0.0}");
    assert!(matches!(r, IngestOutcome::Queued));
    core.tick();
    assert_eq!(core.world.players[0].x, 1000);
    // the newest queued snapshot reflects the latest world
    let last = core.snapshots.items.last().unwrap();
    assert_eq!(last[0].x, 1000);
}

#[test]
fn full_command_queue_hands_the_command_back() {
    let mut core = ServerCore::new();
    let a = core.on_connect().unwrap();
    for _ in 0..CMD_QUEUE_CAP {
        let r = core.on_line(a, "{\"type\":\"Move\",\"x\":1.0,\"y\":0.0}");
        assert!(matches!(r, IngestOutcome::Queued));
    }
    let r = core.on_line(a, "{\"type\":\"Move\",\"x\":1.0,\"y\":0.0}");
    assert!(matches!(r, IngestOutcome::QueueFull { .. }));
    // the queue drains on the next tick and ingestion resumes
    core.tick();
    let r2 = core.on_line(a, "{\"type\":\"Join\",\"name\":\"x\"}");
    assert!(matches!(r2, IngestOutcome::Queued));
}

#[test]
fn snapshots_drain_in_order() {
    let mut core = ServerCore::new();
    let a = core.on_connect().unwrap();
    core.on_line(a, "{\"type\":\"Join\",\"name\":\"x\"}");
    core.tick();
    core.on_line(a, "{\"type\":\"Move\",\"x\":2.0,\"y\":0.0}");
    core.tick();
    let (first, _) = core.next_broadcast().unwrap();
    let (second, _) = core.next_broadcast().unwrap();
    assert!(first.contains("\"x\":0.000"));
    assert!(second.contains("\"x\":2.000"));
    assert!(core.next_broadcast().is_none());
}

#[test]
fn ids_stay_unique_across_interleaved_sessions() {
    let mut core = ServerCore::new();
    let a = core.on_connect().unwrap();
    core.on_line(a, "{\"type\":\"Join\",\"name\":\"first\"}");
    core.tick();
    core.on_disconnect(a);

    // the same person comes back on a fresh connection and rejoins
    let c = core.on_connect().unwrap();
    assert_ne!(a, c);
    core.on_line(c, "{\"type\":\"Join\",\"name\":\"first\"}");
    core.tick();

    let d = core.on_connect().unwrap();
    core.on_line(d, "{\"type\":\"Join\",\"name\":\"other\"}");
    core.tick();

    let ids: Vec<u64> = core.world.players.iter().map(|p| p.id).collect();
    assert_eq!(ids, vec![1, 2, 3]);
}
