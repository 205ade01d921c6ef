use agromate::attribute::{AttrValue, Row};
use agromate::mqtt_lambda::{
    insert_item, reading_item, reading_item_now, stored_message, table_exists, Request, TABLE_KEY,
};
use agromate::rollup::{plan_pass, select_flagged, StoreAction};

fn n(text: &str) -> AttrValue {
    AttrValue::N(text.to_string())
}

fn reading() -> Request {
    Request {
        temperature: 24,
        humidity: -3,
        uuid: "297a0620".to_string(),
        hour: true,
        media_month: false,
    }
}

#[test]
fn reading_is_stored_with_boolean_flags() {
    let row = reading_item(&reading(), 1700000000);
    assert_eq!(
        row,
        Row::new()
            .item("temperature", n("24"))
            .item("humidity", n("-3"))
            .item("timestamp", n("1700000000"))
            .item("hour", AttrValue::Bool(true))
            .item("media_month", AttrValue::Bool(false))
    );
    assert_eq!(TABLE_KEY, "timestamp");
}

#[test]
fn later_name_replaces_an_earlier_one() {
    let row = insert_item("a", 1, "a", 2, "timestamp", true, "b", false, 5);
    assert_eq!(
        row,
        Row::new()
            .item("a", n("2"))
            .item("timestamp", AttrValue::Bool(true))
            .item("b", AttrValue::Bool(false))
    );
    let row = insert_item("t", i8::MIN, "h", i8::MAX, "x", false, "y", true, -1);
    assert_eq!(row.get("t"), Some(&n("-128")));
    assert_eq!(row.get("h"), Some(&n("127")));
    assert_eq!(row.get("timestamp"), Some(&n("-1")));
    assert_eq!(row.get("x"), Some(&AttrValue::Bool(false)));
    assert_eq!(row.get("y"), Some(&AttrValue::Bool(true)));
}

#[test]
fn reading_stamped_by_the_clock() {
    let row = reading_item_now(&reading());
    let stamp = match row.get("timestamp") {
        Some(AttrValue::N(text)) => text.parse::<i64>().unwrap(),
        other => panic!("no timestamp: {:?}", other),
    };
    assert!(stamp > 1_600_000_000);
    assert_eq!(row, reading_item(&reading(), stamp));
}

#[test]
fn table_is_looked_up_by_its_whole_name() {
    let names = vec!["devices".to_string(), "297a0620".to_string()];
    assert!(table_exists(&names, "297a0620"));
    assert!(table_exists(&names, "devices"));
    assert!(!table_exists(&names, "297a062"));
    assert!(!table_exists(&names, "Devices"));
    assert!(!table_exists(&names, ""));
    assert!(!table_exists(&Vec::new(), "devices"));
}

#[test]
fn outcome_is_told_as_a_word() {
    assert_eq!(stored_message(true), "true");
    assert_eq!(stored_message(false), "false");
}

#[test]
fn a_day_of_ingested_readings_is_compacted() {
    let table: Vec<Row> = (0..24).map(|hour| reading_item(&reading(), 1700000000 + 3600 * hour)).collect();
    assert_eq!(select_flagged(&table, "hour").unwrap().len(), 24);
    assert!(select_flagged(&table, "media_month").unwrap().is_empty());
    let actions = plan_pass(&table, 1700090000, 1700090001).unwrap();
    assert_eq!(actions.len(), 25);
    match actions.last() {
        Some(StoreAction::Put { row }) => {
            assert_eq!(row.get("media_temp"), Some(&n("576")));
            assert_eq!(row.get("media_hum"), Some(&n("-72")));
            assert_eq!(row.get("media_month"), Some(&AttrValue::Bool(true)));
        }
        other => panic!("no monthly row: {:?}", other),
    }
}

#[test]
fn reading_without_the_hour_flag_is_not_selected() {
    let mut request = reading();
    request.hour = false;
    request.media_month = true;
    let table = vec![reading_item(&request, 5)];
    assert!(select_flagged(&table, "hour").unwrap().is_empty());
    assert_eq!(select_flagged(&table, "media_month").unwrap().len(), 1);
}
