use agromate::attribute::{AttrValue, Row, RowError};
use agromate::rollup::{
    after_action, hourly_rollup, hourly_rollup_now, monthly_rollup, monthly_rollup_now, plan_pass,
    rollup_table, select_flagged, sum_field, StoreAction, Verdict, HOURLY_BATCH, MONTHLY_BATCH,
};

fn number(text: &str) -> AttrValue {
    AttrValue::N(text.to_string())
}

fn hourly_row(timestamp: i64, temperature: &str, humidity: &str) -> Row {
    Row::new()
        .item("temperature", number(temperature))
        .item("humidity", number(humidity))
        .item("timestamp", number(&timestamp.to_string()))
        .item("hour", AttrValue::Bool(true))
        .item("media_month", AttrValue::Bool(false))
}

fn monthly_row(timestamp: i64, temperature: &str, humidity: &str) -> Row {
    Row::new()
        .item("media_temp", number(temperature))
        .item("media_hum", number(humidity))
        .item("hour", AttrValue::Bool(false))
        .item("media_month", AttrValue::Bool(true))
        .item("media_year", AttrValue::Bool(false))
        .item("timestamp", number(&timestamp.to_string()))
}

fn hourly_table(count: i64, temperature: &str, humidity: &str) -> Vec<Row> {
    (0..count).map(|i| hourly_row(1000 + i, temperature, humidity)).collect()
}

fn monthly_table(count: i64, temperature: &str, humidity: &str) -> Vec<Row> {
    (0..count).map(|i| monthly_row(5000 + i, temperature, humidity)).collect()
}

fn key_of(row: &Row) -> Option<String> {
    match row.get("timestamp") {
        Some(AttrValue::N(k)) => Some(k.clone()),
        _ => None,
    }
}

/// A store in memory: delete removes by key, put replaces by key.
fn perform(table: &mut Vec<Row>, actions: &[StoreAction]) {
    for action in actions {
        match action {
            StoreAction::Delete { timestamp } => {
                table.retain(|r| key_of(r).as_deref() != Some(timestamp.as_str()));
            }
            StoreAction::Put { row } => {
                let key = key_of(row);
                if key.is_some() {
                    table.retain(|r| key_of(r) != key);
                }
                table.push(row.clone());
            }
        }
    }
}

fn is_flagged(row: &Row, name: &str) -> bool {
    row.get(name) == Some(&AttrValue::Bool(true))
}

fn count_flagged(table: &[Row], name: &str) -> usize {
    table.iter().filter(|r| is_flagged(r, name)).count()
}

fn value_of(row: &Row, name: &str) -> f64 {
    match row.get(name) {
        Some(AttrValue::N(text)) => text.parse::<f64>().unwrap(),
        other => panic!("no number under {}: {:?}", name, other),
    }
}

fn put_rows(actions: &[StoreAction]) -> Vec<&Row> {
    actions
        .iter()
        .filter_map(|a| match a {
            StoreAction::Put { row } => Some(row),
            _ => None,
        })
        .collect()
}

fn deleted_keys(actions: &[StoreAction]) -> Vec<String> {
    actions
        .iter()
        .filter_map(|a| match a {
            StoreAction::Delete { timestamp } => Some(timestamp.clone()),
            _ => None,
        })
        .collect()
}

#[test]
fn sensor_a_day_of_readings_becomes_one_monthly_row() {
    let mut table = hourly_table(24, "20.0", "50.0");
    let actions = plan_pass(&table, 9000, 9001).unwrap();
    assert_eq!(actions.len(), 25);
    perform(&mut table, &actions);
    assert_eq!(count_flagged(&table, "hour"), 0);
    assert_eq!(table.len(), 1);
    let row = &table[0];
    assert_eq!(value_of(row, "media_temp"), 480.0);
    assert_eq!(value_of(row, "media_hum"), 1200.0);
    assert_eq!(row.get("media_month"), Some(&AttrValue::Bool(true)));
    assert_eq!(row.get("hour"), Some(&AttrValue::Bool(false)));
    assert_eq!(row.get("media_year"), Some(&AttrValue::Bool(false)));
    assert_eq!(row.get("timestamp"), Some(&number("9000")));
}

#[test]
fn twenty_three_hourly_rows_change_nothing() {
    let mut table = hourly_table(23, "20.0", "50.0");
    let before = table.clone();
    let actions = plan_pass(&table, 9000, 9001).unwrap();
    assert!(actions.is_empty());
    perform(&mut table, &actions);
    assert_eq!(table, before);
}

#[test]
fn eleven_monthly_rows_give_a_yearly_row_and_stay() {
    let mut table = monthly_table(11, "480.0", "1200.0");
    let before = table.clone();
    let actions = plan_pass(&table, 9000, 9001).unwrap();
    assert_eq!(actions.len(), 1);
    assert!(deleted_keys(&actions).is_empty());
    perform(&mut table, &actions);
    assert_eq!(table.len(), 12);
    assert_eq!(&table[..11], &before[..]);
    let row = &table[11];
    assert_eq!(value_of(row, "media_temp"), 5280.0);
    assert_eq!(value_of(row, "media_hum"), 13200.0);
    assert_eq!(row.get("media_year"), Some(&AttrValue::Bool(true)));
    assert_eq!(row.get("media_month"), Some(&AttrValue::Bool(false)));
    assert_eq!(row.get("hour"), Some(&AttrValue::Bool(false)));
    assert_eq!(row.get("timestamp"), Some(&number("9001")));
}

#[test]
fn fewer_than_a_batch_is_left_alone() {
    for count in [0, 1, 5, 23] {
        let mut table = hourly_table(count, "21", "40");
        table.extend(monthly_table(3, "480", "1200"));
        let before = table.clone();
        let actions = plan_pass(&table, 9000, 9001).unwrap();
        assert!(actions.is_empty(), "{} hourly rows", count);
        perform(&mut table, &actions);
        assert_eq!(table, before);
    }
}

#[test]
fn more_than_a_batch_is_left_alone() {
    let table = hourly_table(25, "21", "40");
    assert!(hourly_rollup(&table, 9000).unwrap().is_empty());
    let table = monthly_table(12, "480", "1200");
    assert!(monthly_rollup(&table, 9000).unwrap().is_empty());
    let table = monthly_table(10, "480", "1200");
    assert!(monthly_rollup(&table, 9000).unwrap().is_empty());
}

#[test]
fn monthly_row_holds_the_sum_not_the_mean() {
    let mut table: Vec<Row> = (1..=24)
        .map(|i| hourly_row(1000 + i, &i.to_string(), &format!("{}.5", i)))
        .collect();
    table.push(monthly_row(10, "7", "8"));
    let actions = hourly_rollup(&table, 9000).unwrap();
    let expected_keys: Vec<String> = (1..=24).map(|i| (1000 + i).to_string()).collect();
    assert_eq!(deleted_keys(&actions), expected_keys);
    let puts = put_rows(&actions);
    assert_eq!(puts.len(), 1);
    assert_eq!(puts[0].get("media_temp"), Some(&number("300")));
    assert_eq!(puts[0].get("media_hum"), Some(&number("312.0")));
    assert!(matches!(actions.last(), Some(StoreAction::Put { .. })));
    perform(&mut table, &actions);
    assert_eq!(table.len(), 2);
    assert_eq!(table[0], monthly_row(10, "7", "8"));
}

#[test]
fn both_phases_read_the_same_snapshot() {
    let mut table = hourly_table(24, "1", "2");
    table.extend(monthly_table(11, "10", "20"));
    let actions = plan_pass(&table, 9000, 9001).unwrap();
    assert_eq!(actions.len(), 26);
    let puts = put_rows(&actions);
    assert_eq!(puts.len(), 2);
    assert_eq!(puts[0].get("media_month"), Some(&AttrValue::Bool(true)));
    assert_eq!(puts[0].get("media_temp"), Some(&number("24")));
    assert_eq!(puts[1].get("media_year"), Some(&AttrValue::Bool(true)));
    assert_eq!(puts[1].get("media_temp"), Some(&number("110")));
    assert_eq!(puts[1].get("media_hum"), Some(&number("220")));
    perform(&mut table, &actions);
    assert_eq!(table.len(), 13);
    assert_eq!(count_flagged(&table, "media_month"), 12);
    assert_eq!(count_flagged(&table, "media_year"), 1);
}

#[test]
fn second_pass_right_after_the_first_does_nothing() {
    let mut table = hourly_table(24, "20.0", "50.0");
    table.extend(monthly_table(4, "480.0", "1200.0"));
    let first = plan_pass(&table, 9000, 9001).unwrap();
    perform(&mut table, &first);
    let settled = table.clone();
    let second = plan_pass(&table, 9002, 9003).unwrap();
    assert!(second.is_empty());
    perform(&mut table, &second);
    assert_eq!(table, settled);
    assert_eq!(table.len(), 5);
}

#[test]
fn eleven_monthly_rows_are_summed_again_by_the_next_pass() {
    let mut table = monthly_table(11, "1", "2");
    let first = plan_pass(&table, 9000, 9001).unwrap();
    perform(&mut table, &first);
    let second = plan_pass(&table, 9002, 9003).unwrap();
    assert_eq!(second.len(), 1);
    perform(&mut table, &second);
    assert_eq!(table.len(), 13);
}

#[test]
fn tenth_monthly_row_plus_a_new_one_is_a_batch_for_the_next_pass() {
    let mut table = hourly_table(24, "1", "1");
    table.extend(monthly_table(10, "24", "24"));
    let first = plan_pass(&table, 9000, 9001).unwrap();
    assert_eq!(put_rows(&first).len(), 1);
    perform(&mut table, &first);
    assert_eq!(count_flagged(&table, "media_month"), 11);
    let second = plan_pass(&table, 9002, 9003).unwrap();
    let puts = put_rows(&second);
    assert_eq!(puts.len(), 1);
    assert_eq!(puts[0].get("media_temp"), Some(&number("264")));
}

#[test]
fn what_the_monthly_phase_wrote_the_yearly_phase_reads() {
    let mut table: Vec<Row> = Vec::new();
    for month in 0..11 {
        let mut day = hourly_table(24, "20.5", "-1.25");
        let actions = hourly_rollup(&day, 100 + month).unwrap();
        perform(&mut day, &actions);
        table.extend(day);
    }
    assert_eq!(table.len(), 11);
    let actions = monthly_rollup(&table, 9000).unwrap();
    let puts = put_rows(&actions);
    assert_eq!(puts[0].get("media_temp"), Some(&number("5412.0")));
    assert_eq!(puts[0].get("media_hum"), Some(&number("-330.00")));
}

#[test]
fn only_the_boolean_true_selects_a_row() {
    let with_flag = |flag: AttrValue| -> Row {
        Row::new()
            .item("temperature", number("20"))
            .item("humidity", number("50"))
            .item("timestamp", number("1"))
            .item("hour", flag)
            .item("media_month", AttrValue::Bool(false))
    };
    assert_eq!(select_flagged(&vec![with_flag(AttrValue::Bool(true))], "hour").unwrap().len(), 1);
    assert!(select_flagged(&vec![with_flag(AttrValue::Bool(false))], "hour").unwrap().is_empty());
    assert!(select_flagged(&vec![with_flag(number("1"))], "hour").unwrap().is_empty());
    assert!(select_flagged(&vec![with_flag(AttrValue::Other)], "hour").unwrap().is_empty());
}

#[test]
fn row_without_the_flag_field_aborts() {
    let mut table = hourly_table(3, "20", "50");
    table.push(Row::new().item("timestamp", number("7")).item("media_month", AttrValue::Bool(false)));
    assert_eq!(hourly_rollup(&table, 9000), Err(RowError::MissingField));
    assert_eq!(plan_pass(&table, 9000, 9001), Err(RowError::MissingField));
    assert_eq!(select_flagged(&table, "hour"), Err(RowError::MissingField));
    let table = vec![Row::new().item("hour", AttrValue::Bool(false))];
    assert_eq!(monthly_rollup(&table, 9000), Err(RowError::MissingField));
    assert_eq!(plan_pass(&table, 9000, 9001), Err(RowError::MissingField));
}

#[test]
fn unreadable_measurement_aborts() {
    let mut table = hourly_table(23, "20", "50");
    table.push(
        Row::new()
            .item("temperature", AttrValue::S("20".to_string()))
            .item("humidity", number("50"))
            .item("timestamp", number("1"))
            .item("hour", AttrValue::Bool(true))
            .item("media_month", AttrValue::Bool(false)),
    );
    assert_eq!(hourly_rollup(&table, 9000), Err(RowError::TypeMismatch));

    let mut table = hourly_table(23, "20", "50");
    table.push(hourly_row(1, "warm", "50"));
    assert_eq!(hourly_rollup(&table, 9000), Err(RowError::MalformedNumber));

    let mut table = hourly_table(23, "20", "50");
    table.push(
        Row::new()
            .item("temperature", number("20"))
            .item("timestamp", number("1"))
            .item("hour", AttrValue::Bool(true))
            .item("media_month", AttrValue::Bool(false)),
    );
    assert_eq!(hourly_rollup(&table, 9000), Err(RowError::MissingField));

    let mut table = hourly_table(23, "20", "50");
    table.push(
        Row::new()
            .item("temperature", number("20"))
            .item("humidity", number("50"))
            .item("hour", AttrValue::Bool(true))
            .item("media_month", AttrValue::Bool(false)),
    );
    assert_eq!(hourly_rollup(&table, 9000), Err(RowError::MissingField));
}

#[test]
fn sum_beyond_the_range_aborts() {
    let big = "170141183460469231731687303715884105727";
    let table = hourly_table(24, big, "50");
    assert_eq!(hourly_rollup(&table, 9000), Err(RowError::NumberOutOfRange));
    let table = hourly_table(24, "99999999999999999999999999999999999999999", "50");
    assert_eq!(hourly_rollup(&table, 9000), Err(RowError::NumberOutOfRange));
    let table = monthly_table(11, "480", big);
    assert_eq!(monthly_rollup(&table, 9000), Err(RowError::NumberOutOfRange));
}

#[test]
fn unreadable_rows_outside_the_batch_do_not_matter() {
    let mut table = hourly_table(24, "20", "50");
    table.push(
        Row::new()
            .item("temperature", number("not read"))
            .item("timestamp", AttrValue::Other)
            .item("hour", AttrValue::Bool(false))
            .item("media_month", AttrValue::Other),
    );
    let actions = plan_pass(&table, 9000, 9001).unwrap();
    assert_eq!(actions.len(), 25);
}

#[test]
fn sum_field_adds_at_the_finest_scale() {
    let rows = vec![
        Row::new().item("v", number("1.5")),
        Row::new().item("v", number("2")),
        Row::new().item("v", number("-0.25")),
    ];
    assert_eq!(sum_field(&rows, "v").unwrap().to_text(), "3.25");
    assert_eq!(sum_field(&Vec::new(), "v").unwrap().to_text(), "0");
}

#[test]
fn clock_stamped_pass_puts_a_row_keyed_by_the_present() {
    let table = hourly_table(24, "20.0", "50.0");
    let actions = rollup_table(&table).unwrap();
    assert_eq!(actions.len(), 25);
    let puts = put_rows(&actions);
    let stamp = match puts[0].get("timestamp") {
        Some(AttrValue::N(text)) => text.parse::<i64>().unwrap(),
        other => panic!("no timestamp: {:?}", other),
    };
    assert!(stamp > 1_600_000_000);
    assert_eq!(value_of(puts[0], "media_temp"), 480.0);
    assert!(rollup_table(&hourly_table(2, "1", "1")).unwrap().is_empty());
}

#[test]
fn failed_delete_is_passed_over_and_failed_put_ends_the_run() {
    let delete = StoreAction::Delete { timestamp: "7".to_string() };
    let put = StoreAction::Put { row: monthly_row(1, "2", "3") };
    assert_eq!(after_action(&delete, true), Verdict::Continue);
    assert_eq!(after_action(&delete, false), Verdict::Continue);
    assert_eq!(after_action(&put, true), Verdict::Continue);
    assert_eq!(after_action(&put, false), Verdict::Abort);
}

#[test]
fn batches_are_a_day_of_hours_and_a_year_less_a_month() {
    assert_eq!(HOURLY_BATCH, 24);
    assert_eq!(MONTHLY_BATCH, 11);
}

#[test]
fn clock_stamped_phases_make_one_pass() {
    let mut table = hourly_table(24, "1", "2");
    table.extend(monthly_table(11, "10", "20"));
    let snapshot = table.clone();
    let hourly = hourly_rollup_now(&snapshot).unwrap();
    assert_eq!(hourly.len(), 25);
    perform(&mut table, &hourly);
    let monthly = monthly_rollup_now(&snapshot).unwrap();
    assert_eq!(monthly.len(), 1);
    assert!(deleted_keys(&monthly).is_empty());
    assert_eq!(put_rows(&monthly)[0].get("media_temp"), Some(&number("110")));
    assert_eq!(put_rows(&hourly)[0].get("media_temp"), Some(&number("24")));
    let stamp = |row: &Row| -> i64 {
        match row.get("timestamp") {
            Some(AttrValue::N(text)) => text.parse::<i64>().unwrap(),
            other => panic!("no timestamp: {:?}", other),
        }
    };
    assert!(stamp(put_rows(&hourly)[0]) > 1_600_000_000);
    assert!(stamp(put_rows(&monthly)[0]) >= stamp(put_rows(&hourly)[0]));
    assert!(hourly_rollup_now(&hourly_table(3, "1", "1")).unwrap().is_empty());
    assert!(monthly_rollup_now(&hourly_table(3, "1", "1")).unwrap().is_empty());
    assert_eq!(hourly_rollup_now(&vec![Row::new()]), Err(RowError::MissingField));
    assert_eq!(monthly_rollup_now(&vec![Row::new()]), Err(RowError::MissingField));
}
