use agromate::attribute::{AttrValue, Row, RowError};
use agromate::notification_sender::{
    create_notification_temperature, notification_body, notification_devices, notification_text,
    notification_title, publish_payload, target_arn, NotificationDevice, NotifyError, Request,
    SNSProtocolMessage,
};

fn reading(temperature_alert: bool, humidity_alert: bool) -> Request {
    Request {
        user_id: "WLk7Giku6TYBMI22wfmTSJbWOVA2".to_string(),
        is_temperature_notification: temperature_alert,
        is_humidity_notification: humidity_alert,
        temperature: 24,
        humidity: 63,
        soil_humidity: 0,
        hour: true,
        media_month: false,
        uuid: "297a0620-3b4d-40ed-b407-2216eb0d".to_string(),
    }
}

fn frame(title: &str, body: &str) -> String {
    format!(
        "{{\"notification\":{{\"title\":\"{}\",\"body\":\"{}\"}},\"data\":{{\"custom_app_field1\":\"not_used\",\"custom_app_field2\":\"not_used\"}}}}",
        title, body
    )
}

#[test]
fn both_alerts_give_the_general_warning() {
    let message = create_notification_temperature(&reading(true, true));
    assert_eq!(
        message.gcm,
        frame(
            "Agromate avvisi sensori",
            "I sensori di umidità e temperatura indicano valore inadeguati per la tua pianta! Controlla la serra e mettila in un luogo più fresco"
        )
    );
}

#[test]
fn temperature_alert_reports_the_temperature() {
    let message = create_notification_temperature(&reading(true, false));
    assert_eq!(
        message.gcm,
        frame(
            "Agromate avviso temperatura",
            "La temperature è fuori dal range, temperatura attuale: 24"
        )
    );
}

#[test]
fn humidity_alert_reports_the_humidity() {
    let message = create_notification_temperature(&reading(false, true));
    assert_eq!(
        message.gcm,
        frame("Agromate avviso umidità", "L'umidità è fuori dal range, umidità attuale: 63")
    );
}

#[test]
fn no_alert_gives_an_empty_notification() {
    let message = create_notification_temperature(&reading(false, false));
    assert_eq!(message.gcm, frame("", ""));
}

#[test]
fn titles_and_bodies_by_alert() {
    assert_eq!(notification_title(true, true), "Agromate avvisi sensori");
    assert_eq!(notification_title(true, false), "Agromate avviso temperatura");
    assert_eq!(notification_title(false, true), "Agromate avviso umidità");
    assert_eq!(notification_title(false, false), "");
    assert_eq!(
        notification_body(true, false, -128, 5),
        "La temperature è fuori dal range, temperatura attuale: -128"
    );
    assert_eq!(
        notification_body(false, true, 1, 127),
        "L'umidità è fuori dal range, umidità attuale: 127"
    );
    assert_eq!(notification_body(false, false, 1, 2), "");
}

#[test]
fn notification_is_json_with_escapes() {
    let text = notification_text("a \"title\"", "line\nbreak");
    let value: serde_json::Value = serde_json::from_str(&text).unwrap();
    assert_eq!(value["notification"]["title"].as_str(), Some("a \"title\""));
    assert_eq!(value["notification"]["body"].as_str(), Some("line\nbreak"));
    assert_eq!(value["data"]["custom_app_field1"].as_str(), Some("not_used"));
    assert_eq!(value["data"]["custom_app_field2"].as_str(), Some("not_used"));
}

#[test]
fn payload_nests_the_message_as_a_string() {
    let message = create_notification_temperature(&reading(true, false));
    let payload = publish_payload(&message);
    let value: serde_json::Value = serde_json::from_str(&payload).unwrap();
    assert_eq!(value["GCM"].as_str(), Some(message.gcm.as_str()));
    assert_eq!(value.as_object().unwrap().len(), 1);
    let simple = publish_payload(&SNSProtocolMessage { gcm: "{\"a\":1}".to_string() });
    assert_eq!(simple, "{\"GCM\":\"{\\\"a\\\":1}\"}");
}

fn registration(arn: &str) -> Row {
    Row::new()
        .item("user_id", AttrValue::S("u1".to_string()))
        .item("arn", AttrValue::S(arn.to_string()))
}

#[test]
fn first_registered_device_is_the_target() {
    let rows = vec![registration("arn:one"), registration("arn:two")];
    assert_eq!(target_arn(&rows), Ok("arn:one".to_string()));
    assert_eq!(
        notification_devices(&rows),
        Ok(vec![
            NotificationDevice { arn: "arn:one".to_string() },
            NotificationDevice { arn: "arn:two".to_string() },
        ])
    );
}

#[test]
fn no_device_is_an_error() {
    assert_eq!(target_arn(&Vec::new()), Err(NotifyError::NoDevices));
    assert_eq!(notification_devices(&Vec::new()), Ok(Vec::new()));
}

#[test]
fn every_registration_must_be_readable() {
    let rows = vec![registration("arn:one"), Row::new().item("user_id", AttrValue::S("u".to_string()))];
    assert_eq!(target_arn(&rows), Err(NotifyError::Row(RowError::MissingField)));
    let rows = vec![registration("arn:one"), Row::new().item("arn", AttrValue::N("1".to_string()))];
    assert_eq!(target_arn(&rows), Err(NotifyError::Row(RowError::TypeMismatch)));
    assert_eq!(notification_devices(&rows), Err(RowError::TypeMismatch));
}
