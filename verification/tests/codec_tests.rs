use game_server::codec::{decode_command, encode_message, encode_snapshot};
use game_server::message::{ClientCommand, PlayerState, ServerMessage};

#[test]
fn decode_join() {
    let c = decode_command("{\"type\":\"Join\",\"name\":\"x\"}");
    match c {
        Some(ClientCommand::Join { name }) => assert_eq!(name, "x"),
        _ => panic!("expected Join"),
    }
}

#[test]
fn decode_move_fixed_point() {
    let c = decode_command("{\"type\":\"Move\",\"x\":1.0,\"y\":0.0}");
    match c {
        Some(ClientCommand::Move { dx, dy }) => {
            assert_eq!(dx, 1000);
            assert_eq!(dy, 0);
        },
        _ => panic!("expected Move"),
    }
}

#[test]
fn decode_move_negative_and_fractions() {
    let c = decode_command("{\"type\":\"Move\",\"x\":-2.25,\"y\":0.5}");
    match c {
        Some(ClientCommand::Move { dx, dy }) => {
            assert_eq!(dx, -2250);
            assert_eq!(dy, 500);
        },
        _ => panic!("expected Move"),
    }
}

#[test]
fn decode_move_whole_numbers() {
    let c = decode_command("{\"type\":\"Move\",\"x\":3,\"y\":10.125}");
    match c {
        Some(ClientCommand::Move { dx, dy }) => {
            assert_eq!(dx, 3000);
            assert_eq!(dy, 10125);
        },
        _ => panic!("expected Move"),
    }
}

#[test]
fn decode_attack() {
    let c = decode_command("{\"type\":\"Attack\",\"target\":3}");
    match c {
        Some(ClientCommand::Attack { target }) => assert_eq!(target, 3),
        _ => panic!("expected Attack"),
    }
}

#[test]
fn decode_attack_fractional_target_rejected() {
    assert!(decode_command("{\"type\":\"Attack\",\"target\":1.5}").is_none());
    assert!(decode_command("{\"type\":\"Attack\",\"target\":-1}").is_none());
}

#[test]
fn decode_field_order_free() {
    let c = decode_command("{\"name\":\"ada\",\"type\":\"Join\"}");
    match c {
        Some(ClientCommand::Join { name }) => assert_eq!(name, "ada"),
        _ => panic!("expected Join"),
    }
}

#[test]
fn decode_tolerates_whitespace() {
    let c = decode_command("  { \"type\" : \"Move\" , \"x\" : 1.0 , \"y\" : 2.0 }  \n");
    match c {
        Some(ClientCommand::Move { dx, dy }) => {
            assert_eq!(dx, 1000);
            assert_eq!(dy, 2000);
        },
        _ => panic!("expected Move"),
    }
}

#[test]
fn decode_bogus_tag_rejected() {
    assert!(decode_command("{\"type\":\"Bogus\"}").is_none());
}

#[test]
fn decode_malformed_rejected() {
    assert!(decode_command("").is_none());
    assert!(decode_command("not json").is_none());
    assert!(decode_command("{\"type\":\"Join\"}").is_none());
    assert!(decode_command("{\"type\":\"Move\",\"x\":1.0}").is_none());
    assert!(decode_command("{\"type\":\"Join\",\"name\":\"x\"} trailing").is_none());
    assert!(decode_command("{\"type\":\"Join\",\"name\":\"x\"").is_none());
    assert!(decode_command("{\"type\":\"Move\",\"x\":1.12345,\"y\":0.0}").is_none());
    assert!(decode_command("{\"type\":\"Move\",\"x\":1e5,\"y\":0.0}").is_none());
    assert!(decode_command("{\"type\":42}").is_none());
}

#[test]
fn decode_first_key_wins() {
    let c = decode_command("{\"type\":\"Join\",\"type\":\"Move\",\"name\":\"x\"}");
    assert!(matches!(c, Some(ClientCommand::Join { .. })));
}

#[test]
fn decode_unknown_keys_ignored() {
    let c = decode_command("{\"type\":\"Join\",\"name\":\"x\",\"extra\":7}");
    assert!(matches!(c, Some(ClientCommand::Join { .. })));
}

#[test]
fn encode_one_player_exact() {
    let players = vec![PlayerState { id: 1, x: 0, y: 0, hp: 100 }];
    let line = encode_snapshot(&players);
    assert_eq!(
        line,
        "{\"type\":\"WorldSnapshot\",\"players\":[{\"id\":1,\"x\":0.000,\"y\":0.000,\"hp\":100}]}\n"
    );
}

#[test]
fn encode_two_players_exact() {
    let players = vec![
        PlayerState { id: 1, x: 1500, y: -250, hp: 100 },
        PlayerState { id: 12, x: 0, y: 10125, hp: 99 },
    ];
    let line = encode_snapshot(&players);
    assert_eq!(
        line,
        "{\"type\":\"WorldSnapshot\",\"players\":[{\"id\":1,\"x\":1.500,\"y\":-0.250,\"hp\":100},{\"id\":12,\"x\":0.000,\"y\":10.125,\"hp\":99}]}\n"
    );
}

#[test]
fn encode_empty_snapshot() {
    let players: Vec<PlayerState> = vec![];
    assert_eq!(
        encode_snapshot(&players),
        "{\"type\":\"WorldSnapshot\",\"players\":[]}\n"
    );
}

#[test]
fn encoded_snapshot_is_valid_json() {
    let players = vec![PlayerState { id: 7, x: -1500, y: 250, hp: 42 }];
    let line = encode_snapshot(&players);
    let v: serde_json::Value = serde_json::from_str(line.trim_end()).unwrap();
    assert_eq!(v["type"].as_str(), Some("WorldSnapshot"));
    let ps = v["players"].as_array().unwrap();
    assert_eq!(ps.len(), 1);
    assert_eq!(ps[0]["id"].as_u64(), Some(7));
    assert_eq!(ps[0]["x"].as_f64(), Some(-1.5));
    assert_eq!(ps[0]["y"].as_f64(), Some(0.25));
    assert_eq!(ps[0]["hp"].as_u64(), Some(42));
}

#[test]
fn encode_message_variants_exact() {
    let w = ServerMessage::Welcome { msg: "hi there".to_string() };
    assert_eq!(encode_message(&w), "{\"type\":\"Welcome\",\"msg\":\"hi there\"}\n");

    let e = ServerMessage::Error { msg: "bad frame".to_string() };
    assert_eq!(encode_message(&e), "{\"type\":\"Error\",\"msg\":\"bad frame\"}\n");

    let u = ServerMessage::PlayerUpdate { id: 3, x: 1500, y: -250, hp: 77 };
    assert_eq!(
        encode_message(&u),
        "{\"type\":\"PlayerUpdate\",\"id\":3,\"x\":1.500,\"y\":-0.250,\"hp\":77}\n"
    );

    let s = ServerMessage::WorldSnapshot {
        players: vec![PlayerState { id: 1, x: 0, y: 0, hp: 100 }],
    };
    assert_eq!(
        encode_message(&s),
        "{\"type\":\"WorldSnapshot\",\"players\":[{\"id\":1,\"x\":0.000,\"y\":0.000,\"hp\":100}]}\n"
    );

    let v: serde_json::Value = serde_json::from_str(encode_message(&u).trim_end()).unwrap();
    assert_eq!(v["type"].as_str(), Some("PlayerUpdate"));
    assert_eq!(v["x"].as_f64(), Some(1.5));
}
