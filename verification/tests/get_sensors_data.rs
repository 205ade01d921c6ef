use agromate::attribute::{AttrValue, Row, RowError};
use agromate::get_sensors_data::{
    hashmap_to_lists as measurements_from_rows, measurement, measurement_text, measurements_reply,
    measurements_text, SensorData,
};

fn s(text: &str) -> AttrValue {
    AttrValue::S(text.to_string())
}

fn n(text: &str) -> AttrValue {
    AttrValue::N(text.to_string())
}

fn full_row() -> Row {
    Row::new()
        .item("uuid", s("esp-1"))
        .item("timestamp", n("1700000000"))
        .item("hour", AttrValue::Bool(true))
        .item("humidity", n("63"))
        .item("media_month", AttrValue::Bool(false))
        .item("soil_humidity", n("0"))
        .item("temperature", n("24"))
}

fn full_measurement() -> SensorData {
    SensorData {
        uuid: "esp-1".to_string(),
        timestamp: "1700000000".to_string(),
        hour: true,
        humidity: "63".to_string(),
        media_month: false,
        soil_humidity: "0".to_string(),
        temperature: "24".to_string(),
    }
}

#[test]
fn row_becomes_a_measurement() {
    assert_eq!(measurement(&full_row()), Ok(full_measurement()));
    assert_eq!(
        measurements_from_rows(&vec![full_row(), full_row()]),
        Ok(vec![full_measurement(), full_measurement()])
    );
    assert_eq!(measurements_from_rows(&Vec::new()), Ok(Vec::new()));
}

#[test]
fn measurement_is_written_in_record_order() {
    let expected = "{\"uuid\":\"esp-1\",\"timestamp\":\"1700000000\",\"hour\":true,\"humidity\":\"63\",\"media_month\":false,\"soil_humidity\":\"0\",\"temperature\":\"24\"}";
    assert_eq!(measurement_text(&full_measurement()), expected);
    assert_eq!(
        measurements_text(&vec![full_measurement(), full_measurement()]),
        format!("[{},{}]", expected, expected)
    );
    assert_eq!(measurements_text(&Vec::new()), "[]");
    let reply = measurements_reply(&vec![full_row()]).unwrap();
    assert_eq!(reply.status, 200);
    assert_eq!(reply.content_type, "text/html");
    assert_eq!(reply.body, format!("[{}]", expected));
}

#[test]
fn first_unreadable_field_gives_the_error() {
    let without = |name: &str| -> Row {
        Row { fields: full_row().fields.into_iter().filter(|f| f.name != name).collect() }
    };
    for name in
        ["uuid", "timestamp", "hour", "humidity", "media_month", "soil_humidity", "temperature"]
    {
        assert_eq!(measurement(&without(name)), Err(RowError::MissingField), "{}", name);
    }
    assert_eq!(measurement(&full_row().item("uuid", n("1"))), Err(RowError::TypeMismatch));
    assert_eq!(measurement(&full_row().item("hour", s("true"))), Err(RowError::TypeMismatch));
    assert_eq!(measurement(&full_row().item("temperature", s("24"))), Err(RowError::TypeMismatch));
    // the earlier field decides
    let row = without("timestamp").item("hour", s("true"));
    assert_eq!(measurement(&row), Err(RowError::MissingField));
    let row = full_row().item("hour", s("true"));
    let row = Row { fields: row.fields.into_iter().filter(|f| f.name != "temperature").collect() };
    assert_eq!(measurement(&row), Err(RowError::TypeMismatch));
    assert_eq!(
        measurements_from_rows(&vec![full_row(), without("uuid"), full_row().item("hour", s("x"))]),
        Err(RowError::MissingField)
    );
    assert_eq!(measurements_reply(&vec![without("humidity")]), Err(RowError::MissingField));
}
