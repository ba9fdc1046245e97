use injoint::response::{ClientResponse, MessageValue, Response, ResponseStatus, RoomResponse};
use serde_json::Value;

fn json(text: &str) -> Value {
    serde_json::from_str(text).unwrap()
}

#[test]
fn test_response_serialization() {
    // Test RoomCreated response
    let response = Response::RoomCreated(123);
    let serialized = json(&response.to_json());
    assert_eq!(serialized, json(r#"{"status": "RoomCreated", "message": 123}"#));

    // Test RoomJoined response
    let response = Response::RoomJoined(456);
    let serialized = json(&response.to_json());
    assert_eq!(serialized, json(r#"{"status": "RoomJoined", "message": 456}"#));

    // Test StateSent response
    let state_json = r#"{"value": 42, "name": "test"}"#;
    let response = Response::StateSent(state_json.to_string());
    let serialized = json(&response.to_json());
    assert_eq!(
        serialized,
        json(r#"{"status": "StateSent", "message": {"value": 42, "name": "test"}}"#)
    );

    // Test Action response
    let action_json = r#"{"type": "increment", "value": 5}"#;
    let response = Response::Action(action_json.to_string());
    let serialized = json(&response.to_json());
    assert_eq!(
        serialized,
        json(r#"{"status": "Action", "message": {"type": "increment", "value": 5}}"#)
    );

    // Test error responses
    let response = Response::ServerError("Server error".to_string());
    let serialized = json(&response.to_json());
    assert_eq!(
        serialized,
        json(r#"{"status": "ServerError", "message": "Server error"}"#)
    );
}

#[test]
fn test_room_response() {
    // Test create_room factory method
    let room_id = 123;
    let response = RoomResponse::create_room(room_id);
    assert_eq!(response.room, room_id);
    if let Response::RoomCreated(id) = response.response {
        assert_eq!(id, room_id);
    } else {
        panic!("Expected RoomCreated response");
    }

    // Test serialization
    let serialized = json(&response.to_json());
    assert_eq!(
        serialized,
        json(r#"{"room": 123, "payload": {"status": "RoomCreated", "message": 123}}"#)
    );

    // Test join_room
    let client_id = 456;
    let response = RoomResponse::join_room(room_id, client_id);
    if let Response::RoomJoined(id) = response.response {
        assert_eq!(id, client_id);
    } else {
        panic!("Expected RoomJoined response");
    }

    // Test action
    let payload = r#"{"value": 42}"#.to_string();
    let response = RoomResponse::action(room_id, payload.clone());
    if let Response::Action(p) = &response.response {
        assert_eq!(p, &payload);
    } else {
        panic!("Expected Action response");
    }

    // Test leave_room
    let response = RoomResponse::leave_room(room_id, client_id);
    if let Response::RoomLeft(id) = response.response {
        assert_eq!(id, client_id);
    } else {
        panic!("Expected RoomLeft response");
    }
}

#[test]
fn test_client_response() {
    // Test server_error factory method
    let client_id = 123;
    let message = "Server error message".to_string();
    let response = ClientResponse::server_error(client_id, message.clone());
    assert_eq!(response.client, client_id);
    if let Response::ServerError(msg) = &response.response {
        assert_eq!(msg, &message);
    } else {
        panic!("Expected ServerError response");
    }

    // Test serialization
    let serialized = json(&response.to_json());
    assert_eq!(
        serialized,
        json(r#"{"client": 123, "error": {"status": "ServerError", "message": "Server error message"}}"#)
    );

    // Test client_error
    let message = "Client error message".to_string();
    let response = ClientResponse::client_error(client_id, message.clone());
    if let Response::ClientError(msg) = &response.response {
        assert_eq!(msg, &message);
    } else {
        panic!("Expected ClientError response");
    }

    // Test not_found
    let message = "Not found message".to_string();
    let response = ClientResponse::not_found(client_id, message.clone());
    if let Response::NotFound(msg) = &response.response {
        assert_eq!(msg, &message);
    } else {
        panic!("Expected NotFound response");
    }
}

#[test]
fn frames_are_compact_and_exact() {
    assert_eq!(
        Response::RoomCreated(0).to_json(),
        r#"{"status":"RoomCreated","message":0}"#
    );
    assert_eq!(
        Response::RoomLeft(18446744073709551615).to_json(),
        r#"{"status":"RoomLeft","message":18446744073709551615}"#
    );
    assert_eq!(
        Response::NotFound("Room not found".to_string()).to_json(),
        r#"{"status":"NotFound","message":"Room not found"}"#
    );
}

#[test]
fn error_messages_are_escaped() {
    // the quoting goes through serde_json: quotes and backslashes are escaped
    assert_eq!(
        Response::ClientError("say \"hi\"\\".to_string()).to_json(),
        r#"{"status":"ClientError","message":"say \"hi\"\\"}"#
    );
}

#[test]
fn json_payload_is_embedded_compact() {
    // a payload that is JSON is written as the document, in compact form
    assert_eq!(
        Response::StateSent("{ \"counter\" : 0 }".to_string()).to_json(),
        r#"{"status":"StateSent","message":{"counter":0}}"#
    );
}

#[test]
fn non_json_payload_is_written_as_string() {
    assert_eq!(
        Response::Action("not-json".to_string()).to_json(),
        r#"{"status":"Action","message":"not-json"}"#
    );
}

#[test]
fn parts_round_trip_for_every_variant() {
    let all = vec![
        Response::RoomCreated(7),
        Response::RoomJoined(8),
        Response::StateSent(r#"{"counter":3}"#.to_string()),
        Response::Action("plain text".to_string()),
        Response::RoomLeft(9),
        Response::ServerError("Invalid action".to_string()),
        Response::ClientError("Leave current room before creating new".to_string()),
        Response::NotFound("Room not found".to_string()),
    ];
    for r in all {
        let back = Response::from_parts(r.status(), r.message()).unwrap();
        assert_eq!(back.to_json(), r.to_json());
        assert_eq!(format!("{:?}", back), format!("{:?}", r));
    }
}

#[test]
fn from_parts_rejects_mismatched_message() {
    assert!(Response::from_parts(ResponseStatus::RoomCreated, MessageValue::Text("x".to_string())).is_none());
    assert!(Response::from_parts(ResponseStatus::NotFound, MessageValue::Unsigned(3)).is_none());
    match Response::from_parts(ResponseStatus::StateSent, MessageValue::Unsigned(3)) {
        Some(Response::StateSent(p)) => assert_eq!(p, "3"),
        other => panic!("unexpected {:?}", other),
    }
}

#[test]
fn status_names_round_trip() {
    let all = [
        ResponseStatus::RoomCreated,
        ResponseStatus::RoomJoined,
        ResponseStatus::StateSent,
        ResponseStatus::Action,
        ResponseStatus::RoomLeft,
        ResponseStatus::ServerError,
        ResponseStatus::ClientError,
        ResponseStatus::NotFound,
    ];
    for s in all {
        assert_eq!(ResponseStatus::from_name(s.name()), Some(s));
    }
    assert_eq!(ResponseStatus::from_name("Unknown"), None);
    assert_eq!(format!("{:?}", ResponseStatus::RoomCreated), "RoomCreated");
}

#[test]
fn message_value_text() {
    assert_eq!(MessageValue::Unsigned(42).to_json(), "42");
    assert_eq!(MessageValue::Text("a".to_string()).to_json(), "\"a\"");
    assert_eq!(MessageValue::Json("[1,2]".to_string()).to_json(), "[1,2]");
}
