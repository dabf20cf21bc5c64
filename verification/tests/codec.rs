//! Round-trip and malformed-input behaviour of the wire codec.

use netcore::codec::{build_packet, build_unreliable_packet};
use netcore::decode::decode;
use netcore::direction::{direction_from_byte, translate_direction, Direction};
use netcore::packet::{
    ActorProperty, BbsPost, BoardColor, Ease, KeyFrame, ServerPacket, VERSION_ITERATION,
};
use netcore::wire::DecodeError;

fn round_trip(p: ServerPacket) {
    let bytes = build_packet(&p);
    let back = decode(bytes.as_slice()).expect("well-formed packet must decode");
    assert_eq!(back, p);
}

#[test]
fn round_trip_handshake() {
    round_trip(ServerPacket::Pong { max_payload_size: 1400 });
    round_trip(ServerPacket::Pong { max_payload_size: 0 });
    round_trip(ServerPacket::Pong { max_payload_size: 65535 });
    let _ = VERSION_ITERATION;
}

#[test]
fn round_trip_ack_and_lifecycle() {
    round_trip(ServerPacket::Ack { reliability: 1, id: 0 });
    round_trip(ServerPacket::Ack { reliability: 4, id: u64::MAX });
    round_trip(ServerPacket::CompleteConnection);
    round_trip(ServerPacket::TransferWarp);
    round_trip(ServerPacket::TransferStart);
    round_trip(ServerPacket::Kick { reason: String::from("afk") });
    round_trip(ServerPacket::Kick { reason: String::new() });
}

#[test]
fn round_trip_login_all_directions() {
    let dirs = [
        Direction::NoDirection,
        Direction::Up,
        Direction::Left,
        Direction::Down,
        Direction::Right,
        Direction::UpLeft,
        Direction::UpRight,
        Direction::DownLeft,
        Direction::DownRight,
    ];
    for d in dirs {
        round_trip(ServerPacket::Login {
            ticket: String::from("t-1"),
            warp_in: true,
            spawn_x: 1.5f32.to_bits(),
            spawn_y: (-2.25f32).to_bits(),
            spawn_z: 0f32.to_bits(),
            spawn_direction: d,
        });
    }
}

#[test]
fn round_trip_strings_boundaries() {
    round_trip(ServerPacket::Message {
        message: String::new(),
        mug_texture_path: String::from("mug.png"),
        mug_animation_path: String::from("mug.animation"),
    });
    let max = "a".repeat(65535);
    round_trip(ServerPacket::MapUpdate { map_path: max });
    round_trip(ServerPacket::PlaySound { path: String::from("resources/sfx/pew.ogg") });
    round_trip(ServerPacket::TransferServer {
        address: String::from("203.0.113.9"),
        port: 8765,
        data: String::from("warp=plaza"),
        warp_out: false,
    });
}

#[test]
fn round_trip_optionals_absent_and_present() {
    round_trip(ServerPacket::TrackWithCamera { actor_id: None });
    round_trip(ServerPacket::TrackWithCamera { actor_id: Some(String::from("p7")) });
    round_trip(ServerPacket::Prompt { character_limit: 32, default_text: None });
    round_trip(ServerPacket::Prompt {
        character_limit: 0,
        default_text: Some(String::new()),
    });
}

#[test]
fn round_trip_board_posts() {
    let posts = vec![
        BbsPost {
            id: String::from("1"),
            read: false,
            title: String::from("hello"),
            author: String::from("mod"),
        },
        BbsPost {
            id: String::from("2"),
            read: true,
            title: String::new(),
            author: String::from("admin"),
        },
    ];
    round_trip(ServerPacket::OpenBoard {
        current_depth: 1,
        name: String::from("town board"),
        color: BoardColor { r: 10, g: 200, b: 33 },
        posts: posts.clone(),
    });
    round_trip(ServerPacket::PrependPosts {
        current_depth: 0,
        reference: Some(String::from("2")),
        posts: Vec::new(),
    });
    round_trip(ServerPacket::AppendPosts { current_depth: 2, reference: None, posts });
}

#[test]
fn round_trip_actor_messages() {
    round_trip(ServerPacket::ActorConnected {
        ticket: String::from("abc"),
        name: String::from("Mega"),
        texture_path: String::from("t.png"),
        animation_path: String::from("t.animation"),
        direction: Direction::DownRight,
        x: 3.5f32.to_bits(),
        y: 7.25f32.to_bits(),
        z: 0.0f32.to_bits(),
        solid: true,
        warp_in: false,
        scale_x: 1.0f32.to_bits(),
        scale_y: 1.0f32.to_bits(),
        rotation: 90.0f32.to_bits(),
        animation: Some(String::from("IDLE")),
    });
    round_trip(ServerPacket::ActorEmote {
        ticket: String::from("abc"),
        emote_id: 3,
        use_custom_emotes: true,
    });
    round_trip(ServerPacket::ActorPropertyKeyFrames {
        ticket: String::from("abc"),
        tail: false,
        keyframes: vec![KeyFrame {
            duration: 0.5f32.to_bits(),
            property_steps: vec![
                (ActorProperty::X(4.0f32.to_bits()), Ease::Linear),
                (ActorProperty::Animation(String::from("RUN")), Ease::Floor),
                (ActorProperty::Direction(Direction::Left), Ease::In),
                (ActorProperty::SoundEffect(String::from("step.ogg")), Ease::Out),
            ],
        }],
    });
    round_trip(ServerPacket::ActorPropertyKeyFrames {
        ticket: String::new(),
        tail: true,
        keyframes: Vec::new(),
    });
}

#[test]
fn unreliable_envelope_prefixes_zero_byte() {
    let p = ServerPacket::LockInput;
    let plain = build_packet(&p);
    let framed = build_unreliable_packet(&p);
    assert_eq!(framed[0], 0);
    assert_eq!(&framed[1..], plain.as_slice());
}

#[test]
fn truncated_buffer_is_malformed() {
    let p = ServerPacket::Kick { reason: String::from("bye now") };
    let bytes = build_packet(&p);
    for cut in 0..bytes.len() {
        let r = decode(&bytes[..cut]);
        assert_eq!(r, Err(DecodeError::MalformedMessage), "cut at {cut}");
    }
}

#[test]
fn unknown_tag_and_trailing_bytes_are_malformed() {
    assert_eq!(decode(&[255, 255]), Err(DecodeError::MalformedMessage));
    assert_eq!(decode(&[]), Err(DecodeError::MalformedMessage));
    let mut bytes = build_packet(&ServerPacket::UnlockInput);
    bytes.push(0);
    assert_eq!(decode(bytes.as_slice()), Err(DecodeError::MalformedMessage));
}

#[test]
fn bad_enumeration_byte_is_malformed() {
    // an ease identifier outside 0..=4 inside a key-frame track
    let good = build_packet(&ServerPacket::ActorPropertyKeyFrames {
        ticket: String::new(),
        tail: false,
        keyframes: vec![KeyFrame {
            duration: 0,
            property_steps: vec![(ActorProperty::Y(0), Ease::Floor)],
        }],
    });
    let mut bad = good.clone();
    // ease byte sits right after tag(2) + ticket(2) + tail(1) + count(2) + duration(4) + steps(2)
    let ease_at = 2 + 2 + 1 + 2 + 4 + 2;
    assert_eq!(bad[ease_at], 4);
    bad[ease_at] = 9;
    assert_eq!(decode(bad.as_slice()), Err(DecodeError::MalformedMessage));
    assert!(decode(good.as_slice()).is_ok());
}

#[test]
fn direction_bytes_are_one_hot() {
    assert_eq!(translate_direction(Direction::Up), 0x01);
    assert_eq!(translate_direction(Direction::Left), 0x02);
    assert_eq!(translate_direction(Direction::Down), 0x04);
    assert_eq!(translate_direction(Direction::Right), 0x08);
    assert_eq!(translate_direction(Direction::UpLeft), 0x10);
    assert_eq!(translate_direction(Direction::UpRight), 0x20);
    assert_eq!(translate_direction(Direction::DownLeft), 0x40);
    assert_eq!(translate_direction(Direction::DownRight), 0x80);
    assert_eq!(translate_direction(Direction::NoDirection), 0x00);
    // any unmapped byte decodes to the absent direction, a deliberate catch-all
    assert_eq!(direction_from_byte(0x03), Direction::NoDirection);
    assert_eq!(direction_from_byte(0x80), Direction::DownRight);
}
