use red_db::client::{
    interpret_exists_response, interpret_keys_response, interpret_string_value,
    interpret_unit_response, interpret_value_response, string_to_bytes,
};
use red_db::engine::{execute_step, validate_command};
use red_db::error::{ClientError, ServerError};
use red_db::hashed_key::HashedKey;
use red_db::proto::{Command, Response};
use red_db::store::Store;

fn create_space(store: &mut Store, name: &str) -> Response {
    execute_step(store, &Command::CreateSpace { space: name.to_string() })
}

fn set(store: &mut Store, space: &str, key: &str, value: Vec<u8>) -> Response {
    execute_step(
        store,
        &Command::SetValue { space: space.to_string(), key: key.to_string(), value },
    )
}

fn get(store: &mut Store, space: &str, key: &str) -> Response {
    execute_step(store, &Command::Get { space: space.to_string(), key: key.to_string() })
}

fn delete(store: &mut Store, space: &str, key: &str) -> Response {
    execute_step(store, &Command::Delete { space: space.to_string(), key: key.to_string() })
}

#[test]
fn test_basic_operations() {
    let mut store = Store::new();
    let response = create_space(&mut store, "test");
    assert!(matches!(response, Response::Done));

    let response = set(&mut store, "test", "key1", b"value1".to_vec());
    assert!(matches!(response, Response::Done));

    let response = get(&mut store, "test", "key1");
    assert!(matches!(response, Response::Value(Some(v)) if v == b"value1"));
}

#[test]
fn test_create_and_check_space_existence() {
    let mut store = Store::new();
    let space_name = "my_space".to_string();

    let exists = execute_step(&mut store, &Command::IsSpaceExists { space: space_name.clone() });
    assert!(
        matches!(exists, Response::Bool(false)),
        "Space should not exist initially"
    );

    let r = create_space(&mut store, &space_name);
    assert!(matches!(r, Response::Done));

    let exists = execute_step(&mut store, &Command::IsSpaceExists { space: space_name.clone() });
    assert!(
        matches!(exists, Response::Bool(true)),
        "Space should exist after creation"
    );
}

#[test]
fn test_delete_space() {
    let mut store = Store::new();
    let space_name = "space_to_delete".to_string();

    create_space(&mut store, &space_name);
    let exists = execute_step(&mut store, &Command::IsSpaceExists { space: space_name.clone() });
    assert!(
        matches!(exists, Response::Bool(true)),
        "Space must exist before deletion"
    );

    let r = execute_step(&mut store, &Command::DeleteSpace { space: space_name.clone() });
    assert!(matches!(r, Response::Done));

    let exists = execute_step(&mut store, &Command::IsSpaceExists { space: space_name.clone() });
    assert!(
        matches!(exists, Response::Bool(false)),
        "Space should not exist after deletion"
    );
}

#[test]
fn test_set_get_delete_flow() {
    let mut store = Store::new();
    let space_name = "test_space";
    let key = "my_key";
    let value = vec![1u8, 2, 3, 4, 5];

    create_space(&mut store, space_name);

    let result = get(&mut store, space_name, key);
    assert_eq!(
        result,
        Response::Value(None),
        "Getting a non-existent key should return None"
    );

    let r = set(&mut store, space_name, key, value.clone());
    assert!(matches!(r, Response::Done));

    let result = get(&mut store, space_name, key);
    assert_eq!(
        result,
        Response::Value(Some(value)),
        "Getting an existing key should return its value"
    );

    let r = delete(&mut store, space_name, key);
    assert!(matches!(r, Response::Done));

    let result = get(&mut store, space_name, key);
    assert_eq!(
        result,
        Response::Value(None),
        "Getting a deleted key should return None"
    );
}

#[test]
fn test_string_helpers() {
    let mut store = Store::new();
    let space_name = "string_space";
    let key = "greeting";
    let value = "Hello, World!";

    create_space(&mut store, space_name);
    let r = set(&mut store, space_name, key, string_to_bytes(value));
    assert!(matches!(r, Response::Done));

    let fetched = match get(&mut store, space_name, key) {
        Response::Value(v) => v,
        other => panic!("unexpected response: {other:?}"),
    };
    let result = interpret_string_value(fetched).unwrap();
    assert_eq!(
        result,
        Some(value.to_string()),
        "get_string should retrieve the correct string"
    );
}

#[test]
fn test_list_keys() {
    let mut store = Store::new();
    let space_name = "list_keys_space";

    create_space(&mut store, space_name);

    let keys = match execute_step(&mut store, &Command::ListKeys { space: space_name.to_string() })
    {
        Response::Keys(ks) => ks,
        other => panic!("unexpected response: {other:?}"),
    };
    assert!(keys.is_empty(), "Key list should be empty initially");

    let key1 = "key1";
    let key2 = "key2";
    set(&mut store, space_name, key1, vec![1u8]);
    set(&mut store, space_name, key2, vec![2u8]);

    let mut keys = match execute_step(
        &mut store,
        &Command::ListKeys { space: space_name.to_string() },
    ) {
        Response::Keys(ks) => ks,
        other => panic!("unexpected response: {other:?}"),
    };
    keys.sort();
    assert_eq!(keys.len(), 2, "Should have 2 keys");
    assert_eq!(keys, vec![key1.to_string(), key2.to_string()]);

    delete(&mut store, space_name, key1);
    let keys = match execute_step(&mut store, &Command::ListKeys { space: space_name.to_string() })
    {
        Response::Keys(ks) => ks,
        other => panic!("unexpected response: {other:?}"),
    };
    assert_eq!(keys.len(), 1, "Should have 1 key after deletion");
    assert_eq!(keys[0], key2.to_string());
}

#[test]
fn get_from_unknown_space_reports_space_not_found() {
    let mut store = Store::new();
    let result = get(&mut store, "unknown", "k");
    assert_eq!(
        result,
        Response::Error(ServerError::SpaceNotFound("unknown".to_string()))
    );
}

#[test]
fn create_space_twice_reports_space_already_exists() {
    let mut store = Store::new();
    let first = create_space(&mut store, "a");
    assert!(matches!(first, Response::Done));
    let second = create_space(&mut store, "a");
    assert_eq!(
        second,
        Response::Error(ServerError::SpaceAlreadyExists("a".to_string()))
    );
}

#[test]
fn empty_key_is_invalid() {
    let mut store = Store::new();
    create_space(&mut store, "s");
    let r = set(&mut store, "s", "", vec![1u8]);
    assert!(matches!(r, Response::Error(ServerError::InvalidKey(_))));
    let v = validate_command(&Command::SetValue {
        space: "s".to_string(),
        key: String::new(),
        value: vec![1u8],
    });
    assert!(matches!(v, Err(ServerError::InvalidKey(_))));
}

#[test]
fn value_size_boundary() {
    let mut store = Store::new();
    create_space(&mut store, "s");
    let exactly_one_mib = vec![0u8; 1048576];
    let r = set(&mut store, "s", "k", exactly_one_mib);
    assert!(matches!(r, Response::Done), "a value of exactly 1 MiB is accepted");

    let one_over = vec![0u8; 1048577];
    let r = set(&mut store, "s", "k2", one_over);
    assert_eq!(r, Response::Error(ServerError::ValueTooLarge));
}

#[test]
fn space_name_boundaries() {
    let mut store = Store::new();
    let r = create_space(&mut store, "");
    assert_eq!(r, Response::Error(ServerError::InvalidSpaceName));

    let too_long = "x".repeat(256);
    let r = create_space(&mut store, &too_long);
    assert_eq!(r, Response::Error(ServerError::InvalidSpaceName));

    let just_fits = "x".repeat(255);
    let r = create_space(&mut store, &just_fits);
    assert!(matches!(r, Response::Done));
}

#[test]
fn delete_of_unknown_space_reports_space_not_found() {
    let mut store = Store::new();
    let r = delete(&mut store, "nowhere", "k");
    assert_eq!(
        r,
        Response::Error(ServerError::SpaceNotFound("nowhere".to_string()))
    );
    let r = execute_step(&mut store, &Command::DeleteSpace { space: "nowhere".to_string() });
    assert_eq!(
        r,
        Response::Error(ServerError::SpaceNotFound("nowhere".to_string()))
    );
}

#[test]
fn hashed_keys_from_equal_strings_are_equal_with_equal_hashes() {
    let a = HashedKey::new("some_key".to_string());
    let b = HashedKey::new("some_key".to_string());
    assert_eq!(a, b);
    assert_eq!(a.hash_value(), b.hash_value());

    let c = HashedKey::new("another_key".to_string());
    assert!(a != c, "distinct strings compare unequal whatever their hashes");
}

#[test]
fn list_spaces_names_every_space_once() {
    let mut store = Store::new();
    create_space(&mut store, "alpha");
    create_space(&mut store, "beta");
    let mut names = match execute_step(&mut store, &Command::ListSpaces) {
        Response::Spaces(ns) => ns,
        other => panic!("unexpected response: {other:?}"),
    };
    names.sort();
    assert_eq!(names, vec!["alpha".to_string(), "beta".to_string()]);
}

#[test]
fn test_get_space_client() {
    let mut store = Store::new();
    let space_name = "existing_space";
    let non_existing_space = "non_existing_space";

    // Asking for a handle first checks existence; an absent space is a
    // SpaceNotFound server error, as the client surfaces it.
    let exists = interpret_exists_response(execute_step(
        &mut store,
        &Command::IsSpaceExists { space: non_existing_space.to_string() },
    ))
    .unwrap();
    assert!(!exists, "Should fail for a non-existing space");

    let r = interpret_unit_response(create_space(&mut store, space_name));
    assert!(r.is_ok());
    let exists = interpret_exists_response(execute_step(
        &mut store,
        &Command::IsSpaceExists { space: space_name.to_string() },
    ))
    .unwrap();
    assert!(exists, "Should succeed for an existing space");
}

#[test]
fn unexpected_response_shapes_are_reported() {
    assert_eq!(
        interpret_exists_response(Response::Done),
        Err(ClientError::UnexpectedResponse)
    );
    // is_space_exists treats even a server error as an unexpected shape.
    assert_eq!(
        interpret_exists_response(Response::Error(ServerError::AofReadFailed)),
        Err(ClientError::UnexpectedResponse)
    );
    assert_eq!(
        interpret_unit_response(Response::Bool(true)),
        Err(ClientError::UnexpectedResponse)
    );
    assert_eq!(
        interpret_unit_response(Response::Error(ServerError::ValueTooLarge)),
        Err(ClientError::Server(ServerError::ValueTooLarge))
    );
    assert_eq!(
        interpret_value_response(Response::Done),
        Err(ClientError::UnexpectedResponse)
    );
    assert_eq!(
        interpret_keys_response(Response::Value(None)),
        Err(ClientError::UnexpectedResponse)
    );
}

#[test]
fn get_string_rejects_invalid_utf8() {
    let r = interpret_string_value(Some(vec![0xFFu8, 0xFE]));
    assert!(matches!(r, Err(ClientError::Protocol(_))));
    assert_eq!(interpret_string_value(None), Ok(None));
}
