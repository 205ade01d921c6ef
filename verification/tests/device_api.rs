use agromate::attribute::{AttrValue, Row, RowError};
use agromate::device_api::{
    device_added, device_deleted, device_item, devices_reply, not_implemented, query_to_string,
    response_body, router, Route,
};
use agromate::reply::Reply;

fn s(text: &str) -> AttrValue {
    AttrValue::S(text.to_string())
}

#[test]
fn methods_are_routed_to_their_handlers() {
    assert_eq!(router("GET"), Route::GetDevices);
    assert_eq!(router("POST"), Route::AddDevices);
    assert_eq!(router("DELETE"), Route::DeleteDevices);
    for method in ["PUT", "PATCH", "get", "", "GET ", "HEAD", "OPTIONS"] {
        assert_eq!(router(method), Route::NotImplemented, "{:?}", method);
    }
}

#[test]
fn unknown_method_is_answered_with_404() {
    let reply = not_implemented();
    assert_eq!(
        reply,
        Reply {
            status: 404,
            content_type: "text/html".to_string(),
            body: "{\"error\":true,\"message\":\"API not implemented\"}".to_string(),
        }
    );
}

#[test]
fn added_and_deleted_devices_are_confirmed() {
    assert_eq!(
        device_added(),
        Reply {
            status: 200,
            content_type: "text/html".to_string(),
            body: "{\"error\":false,\"message\":\"Device added successfully\"}".to_string(),
        }
    );
    assert_eq!(
        device_deleted(),
        Reply {
            status: 200,
            content_type: "text/html".to_string(),
            body: "{\"error\":false,\"message\":\"Device deleted successfully\"}".to_string(),
        }
    );
    assert_eq!(response_body(true, "a \"b\""), "{\"error\":true,\"message\":\"a \\\"b\\\"\"}");
}

#[test]
fn device_row_names_user_and_device() {
    let row = device_item("u1", "board-7");
    assert_eq!(row, Row::new().item("user_id", s("u1")).item("device_id", s("board-7")));
    assert_eq!(row.len(), 2);
}

#[test]
fn every_field_of_every_row_is_listed() {
    let rows = vec![
        Row::new().item("user_id", s("u1")).item("device_id", s("d1")),
        Row::new().item("device_id", s("d2")),
    ];
    assert_eq!(
        query_to_string(&rows),
        Ok(
            "[{\"user_id\":\"user_id\",\"device_id\":\"u1\"},{\"user_id\":\"device_id\",\"device_id\":\"d1\"},{\"user_id\":\"device_id\",\"device_id\":\"d2\"}]"
                .to_string()
        )
    );
    assert_eq!(query_to_string(&Vec::new()), Ok("[]".to_string()));
    assert_eq!(query_to_string(&vec![Row::new()]), Ok("[]".to_string()));
    let reply = devices_reply(&rows).unwrap();
    assert_eq!(reply.status, 200);
    assert_eq!(reply.content_type, "text/html");
    assert_eq!(Ok(reply.body), query_to_string(&rows));
}

#[test]
fn field_that_is_no_string_cannot_be_listed() {
    let rows = vec![
        Row::new().item("user_id", s("u1")),
        Row::new().item("user_id", s("u1")).item("count", AttrValue::N("1".to_string())),
    ];
    assert_eq!(query_to_string(&rows), Err(RowError::TypeMismatch));
    assert_eq!(devices_reply(&rows), Err(RowError::TypeMismatch));
    let rows = vec![Row::new().item("on", AttrValue::Bool(true))];
    assert_eq!(query_to_string(&rows), Err(RowError::TypeMismatch));
}
