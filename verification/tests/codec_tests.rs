use red_db::aof::{encode_aof_record, restore_from_aof};
use red_db::client::ClientBuilder;
use red_db::codec::{decode_command, decode_response, encode_command, encode_response};
use red_db::engine::execute_step;
use red_db::error::{ClientError, ConnectionError, ServerError};
use red_db::frame::{command_frame_len, encode_frame, response_frame_len};
use red_db::proto::{Command, Response};
use red_db::store::Store;

fn round_trip_command(c: Command) {
    let bytes = encode_command(&c);
    let back = decode_command(bytes.as_slice()).expect("must decode");
    assert_eq!(back, c);
}

fn round_trip_response(r: Response) {
    let bytes = encode_response(&r);
    let back = decode_response(bytes.as_slice()).expect("must decode");
    assert_eq!(back, r);
}

#[test]
fn command_encoding_round_trips() {
    round_trip_command(Command::Get { space: "s".to_string(), key: "k".to_string() });
    round_trip_command(Command::SetValue {
        space: "spaces".to_string(),
        key: "keys".to_string(),
        value: vec![0u8, 1, 2, 255],
    });
    round_trip_command(Command::Delete { space: "s".to_string(), key: "k".to_string() });
    round_trip_command(Command::ListSpaces);
    round_trip_command(Command::ListKeys { space: "s".to_string() });
    round_trip_command(Command::DeleteSpace { space: "s".to_string() });
    round_trip_command(Command::CreateSpace { space: "s".to_string() });
    round_trip_command(Command::IsSpaceExists { space: "s".to_string() });
    round_trip_command(Command::SetValue {
        space: "unicode-\u{00e9}\u{4e16}".to_string(),
        key: "k\u{00df}".to_string(),
        value: Vec::new(),
    });
}

#[test]
fn response_encoding_round_trips() {
    round_trip_response(Response::Done);
    round_trip_response(Response::Value(None));
    round_trip_response(Response::Value(Some(vec![9u8, 8, 7])));
    round_trip_response(Response::Keys(vec!["a".to_string(), "b".to_string()]));
    round_trip_response(Response::Keys(Vec::new()));
    round_trip_response(Response::Spaces(vec!["one".to_string()]));
    round_trip_response(Response::Bool(true));
    round_trip_response(Response::Bool(false));
    round_trip_response(Response::Error(ServerError::SpaceNotFound("s".to_string())));
    round_trip_response(Response::Error(ServerError::KeyNotFound(
        "k".to_string(),
        "s".to_string(),
    )));
    round_trip_response(Response::Error(ServerError::SpaceAlreadyExists("s".to_string())));
    round_trip_response(Response::Error(ServerError::AofWriteFailed));
    round_trip_response(Response::Error(ServerError::AofReadFailed));
    round_trip_response(Response::Error(ServerError::InvalidKey("why".to_string())));
    round_trip_response(Response::Error(ServerError::InvalidSpaceName));
    round_trip_response(Response::Error(ServerError::ValueTooLarge));
}

#[test]
fn command_encoding_exact_bytes() {
    let bytes = encode_command(&Command::CreateSpace { space: "a".to_string() });
    assert_eq!(bytes, vec![6u8, 1, 0, 0, 0, 97]);

    let bytes = encode_command(&Command::SetValue {
        space: "s".to_string(),
        key: "k".to_string(),
        value: vec![7u8],
    });
    assert_eq!(
        bytes,
        vec![1u8, 1, 0, 0, 0, 115, 1, 0, 0, 0, 107, 1, 0, 0, 0, 7]
    );
}

#[test]
fn decode_rejects_garbage() {
    assert!(decode_command(&[]).is_none());
    assert!(decode_command(&[42u8]).is_none(), "unknown tag");
    assert!(decode_command(&[0u8, 5, 0, 0, 0]).is_none(), "truncated field");
    assert!(decode_response(&[]).is_none());
    assert!(decode_response(&[9u8]).is_none(), "unknown tag");
    assert!(decode_response(&[1u8]).is_none(), "missing presence byte");
    assert!(decode_response(&[4u8, 2]).is_none(), "bad boolean byte");
}

#[test]
fn decode_rejects_invalid_utf8_strings() {
    // CreateSpace with a one-byte name that is not valid UTF-8.
    assert!(decode_command(&[6u8, 1, 0, 0, 0, 0xFF]).is_none());
}

#[test]
fn frame_layout_is_length_then_payload() {
    let framed = encode_frame(&vec![10u8, 20, 30]);
    assert_eq!(framed, vec![3u8, 0, 0, 0, 10, 20, 30]);
}

#[test]
fn command_frame_length_boundary() {
    let at_limit: [u8; 4] = 1048576u32.to_le_bytes();
    assert_eq!(command_frame_len(&at_limit), Ok(1048576));
    let over: [u8; 4] = 1048577u32.to_le_bytes();
    assert_eq!(command_frame_len(&over), Err(ConnectionError::CommandTooLarge));
}

#[test]
fn response_frame_length_boundary() {
    let at_limit: [u8; 4] = 16777216u32.to_le_bytes();
    assert_eq!(response_frame_len(&at_limit), Ok(16777216));
    let over: [u8; 4] = 16777217u32.to_le_bytes();
    assert!(matches!(
        response_frame_len(&over),
        Err(ClientError::Protocol(_))
    ));
}

fn journal(commands: &[Command]) -> Vec<u8> {
    let mut bytes = Vec::new();
    for c in commands {
        bytes.extend_from_slice(&encode_aof_record(c));
    }
    bytes
}

#[test]
fn test_aof_recovery() {
    let commands = [
        Command::CreateSpace { space: "test".to_string() },
        Command::SetValue {
            space: "test".to_string(),
            key: "key1".to_string(),
            value: b"persistent".to_vec(),
        },
    ];
    let bytes = journal(&commands);

    let mut store = restore_from_aof(&bytes);
    let response = execute_step(
        &mut store,
        &Command::Get { space: "test".to_string(), key: "key1".to_string() },
    );
    assert!(matches!(response, Response::Value(Some(v)) if v == b"persistent"));
}

#[test]
fn restore_applies_whole_records_and_skips_a_truncated_tail() {
    let commands = [
        Command::CreateSpace { space: "s".to_string() },
        Command::SetValue {
            space: "s".to_string(),
            key: "k".to_string(),
            value: b"v1".to_vec(),
        },
    ];
    let mut bytes = journal(&commands);
    // A further record, cut off mid-payload.
    let extra = encode_aof_record(&Command::SetValue {
        space: "s".to_string(),
        key: "k".to_string(),
        value: b"v2".to_vec(),
    });
    bytes.extend_from_slice(&extra[..extra.len() / 2]);

    let mut store = restore_from_aof(&bytes);
    let response = execute_step(
        &mut store,
        &Command::Get { space: "s".to_string(), key: "k".to_string() },
    );
    assert!(
        matches!(response, Response::Value(Some(v)) if v == b"v1"),
        "prior records stand; the partial one is skipped"
    );

    // A tail shorter than a length prefix is skipped too.
    let mut bytes = journal(&commands);
    bytes.extend_from_slice(&[7u8, 0]);
    let mut store = restore_from_aof(&bytes);
    let response = execute_step(
        &mut store,
        &Command::Get { space: "s".to_string(), key: "k".to_string() },
    );
    assert!(matches!(response, Response::Value(Some(v)) if v == b"v1"));
}

#[test]
fn restore_skips_records_that_do_not_decode() {
    let mut bytes = journal(&[Command::CreateSpace { space: "s".to_string() }]);
    // A whole frame whose payload is no command.
    bytes.extend_from_slice(&encode_frame(&vec![99u8, 99, 99]));
    bytes.extend_from_slice(&journal(&[Command::SetValue {
        space: "s".to_string(),
        key: "k".to_string(),
        value: b"kept".to_vec(),
    }]));

    let mut store = restore_from_aof(&bytes);
    let response = execute_step(
        &mut store,
        &Command::Get { space: "s".to_string(), key: "k".to_string() },
    );
    assert!(matches!(response, Response::Value(Some(v)) if v == b"kept"));
}

#[test]
fn restore_replays_deletes_of_missing_targets_as_no_ops() {
    let commands = [
        Command::Delete { space: "ghost".to_string(), key: "k".to_string() },
        Command::DeleteSpace { space: "ghost".to_string() },
        Command::CreateSpace { space: "s".to_string() },
        // Replay recreates an existing space as empty.
        Command::SetValue {
            space: "s".to_string(),
            key: "gone".to_string(),
            value: b"x".to_vec(),
        },
        Command::CreateSpace { space: "s".to_string() },
    ];
    let mut store = restore_from_aof(&journal(&commands));
    let response = execute_step(
        &mut store,
        &Command::Get { space: "s".to_string(), key: "gone".to_string() },
    );
    assert_eq!(response, Response::Value(None));
}

#[test]
fn test_builder_builds_successfully_with_aof() {
    let backend = ClientBuilder::new()
        .with_aof_path("test_db.rdb".to_string())
        .with_max_pool_size(4)
        .build()
        .expect("Failed to build client");
    assert_eq!(backend, red_db::client::Backend::Embedded("test_db.rdb".to_string()));
}

#[test]
fn test_builder_panics_without_config() {
    let result = ClientBuilder::new().build();
    assert!(
        result.is_err(),
        "Should panic when neither server_addr nor aof_path is set"
    );
    assert_eq!(result.unwrap_err(), ClientError::NoConfig);
}
