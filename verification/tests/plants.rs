use agromate::attribute::{AttrValue, Row, RowError};
use agromate::notification_register_api::registration_reply;
use agromate::plant_info_api::{
    add_plant_outcome, get_plant_failure, json_reply, not_implemented as plant_not_implemented,
    plant_query, plant_topic, registration_item, router as plant_router, wants_notification,
    PlantQuery, Route as PlantRoute,
};
use agromate::plant_models::{plant_item, settings, PostRequest};
use agromate::plants_db_downloader::{download_reply, LINK_SECONDS};
use agromate::reply::Reply;

fn s(text: &str) -> AttrValue {
    AttrValue::S(text.to_string())
}

fn n(text: &str) -> AttrValue {
    AttrValue::N(text.to_string())
}

fn basil() -> PostRequest {
    PostRequest {
        user_id: "u1".to_string(),
        plant_name: "Basil".to_string(),
        sensor_id: "esp-1".to_string(),
        device_token: "token".to_string(),
        default_temperature: "21.5".to_string(),
        temperature_limit: "3".to_string(),
        notify_wrong_temperature: true,
        default_humidity: "60".to_string(),
        humidity_limit: "10".to_string(),
        notify_wrong_humidity: false,
        default_precipitation: "5".to_string(),
        precipitation_limit: "1".to_string(),
        notify_wrong_soil_humidity: false,
        default_light_color: "#ff00ff".to_string(),
        light_time: "12.3".to_string(),
        light_intensity: "7".to_string(),
    }
}

#[test]
fn plant_methods_are_routed() {
    assert_eq!(plant_router("POST"), PlantRoute::AddPlant);
    assert_eq!(plant_router("GET"), PlantRoute::GetPlant);
    for method in ["PUT", "DELETE", "", "Get"] {
        assert_eq!(plant_router(method), PlantRoute::NotImplemented);
    }
    assert_eq!(
        plant_not_implemented(),
        Reply {
            status: 200,
            content_type: "text/plain".to_string(),
            body: "Method not implemented".to_string(),
        }
    );
    assert_eq!(
        json_reply("[]".to_string()),
        Reply { status: 200, content_type: "application/json".to_string(), body: "[]".to_string() }
    );
}

#[test]
fn null_sensor_reads_all_plants_of_the_user() {
    assert_eq!(plant_query("NULL"), PlantQuery::ByUser);
    assert_eq!(plant_query("esp-1"), PlantQuery::ByUserAndSensor);
    assert_eq!(plant_query("null"), PlantQuery::ByUserAndSensor);
    assert_eq!(plant_query(""), PlantQuery::ByUserAndSensor);
}

#[test]
fn settings_are_published_on_the_sensors_topic() {
    assert_eq!(plant_topic("esp-1"), "sensor/plants/esp-1");
    assert_eq!(plant_topic(""), "sensor/plants/");
}

#[test]
fn any_alert_registers_the_device() {
    assert!(!wants_notification(false, false, false));
    assert!(wants_notification(true, false, false));
    assert!(wants_notification(false, true, false));
    assert!(wants_notification(false, false, true));
    assert!(wants_notification(true, true, true));
}

#[test]
fn outcomes_are_worded() {
    assert_eq!(add_plant_outcome(true), Ok("Plant added correctly".to_string()));
    assert_eq!(add_plant_outcome(false), Err("Error during adding plant".to_string()));
    assert_eq!(get_plant_failure(), "Something went wrong while finding plant in DB");
    assert_eq!(
        registration_reply(true),
        Reply { status: 200, content_type: "text/html".to_string(), body: "OK".to_string() }
    );
    assert_eq!(
        registration_reply(false),
        Reply {
            status: 500,
            content_type: "text/html".to_string(),
            body: "Error during adding platform endpoint".to_string(),
        }
    );
    assert_eq!(
        download_reply("https://bucket/db?sig=1"),
        Reply {
            status: 200,
            content_type: "text/html".to_string(),
            body: "https://bucket/db?sig=1".to_string(),
        }
    );
    assert_eq!(LINK_SECONDS, 20);
}

#[test]
fn endpoint_is_registered_with_the_user() {
    assert_eq!(
        registration_item("u1", "arn:aws:sns:endpoint"),
        Row::new().item("user_id", s("u1")).item("arn", s("arn:aws:sns:endpoint"))
    );
}

#[test]
fn plant_is_stored_under_the_stores_names() {
    let row = plant_item(&basil());
    let expected = Row::new()
        .item("user_id", s("u1"))
        .item("plant_name", s("Basil"))
        .item("sensor_id", s("esp-1"))
        .item("default_temperature", n("21.5"))
        .item("temperature_limit", n("3"))
        .item("notify_wrong_temperaure", AttrValue::Bool(true))
        .item("default_humidity", n("60"))
        .item("humidity_limit", n("10"))
        .item("notify_wrong_humidity", AttrValue::Bool(false))
        .item("default_precipitation", n("5"))
        .item("precipitation_limit", n("1"))
        .item("notify_wrong_soil_humidity", AttrValue::Bool(false))
        .item("default_light_color", s("#ff00ff"))
        .item("light_time", n("12.3"))
        .item("light_intensiy", n("7"));
    assert_eq!(row, expected);
    assert_eq!(row.len(), 15);
    assert_eq!(row.get("device_token"), None);
}

#[test]
fn stored_plant_reads_back_where_the_names_agree() {
    let stored = plant_item(&basil());
    // the alert on temperature is stored under another name than it is read by
    assert_eq!(settings(&stored), Err(RowError::MissingField));
    let row = stored.item("notify_wrong_temperature", AttrValue::Bool(true));
    let read = settings(&row).unwrap();
    let mut expected = basil();
    expected.device_token = String::new();
    expected.light_intensity = "21.5".to_string();
    assert_eq!(read, expected);
}

#[test]
fn unreadable_plant_is_an_error() {
    let row = plant_item(&basil())
        .item("notify_wrong_temperature", AttrValue::Bool(true))
        .item("humidity_limit", s("10"));
    assert_eq!(settings(&row), Err(RowError::TypeMismatch));
    assert_eq!(settings(&Row::new()), Err(RowError::MissingField));
    let row = Row::new().item("user_id", n("1"));
    assert_eq!(settings(&row), Err(RowError::TypeMismatch));
}
