//! The measurements of a sensor as the client reads them.

use vstd::prelude::*;
use vstd::string::StringExecFns;
use crate::attribute::{
    first_error, flag_error, flag_of, lemma_first_error_at, lemma_no_error, number_error, number_of,
    rows_model, text_error, text_of, Row, RowError, RowModel,
};
use crate::json::{
    array, bool_member, json_array, json_bool, json_member, json_object, json_string, object,
    string_member, texts,
};
use crate::reply::{html_reply, Reply};

verus! {

/// One measurement, with its numbers as the store writes them.
#[derive(Debug, Clone, PartialEq, Eq)]
pub struct SensorData {
    /// The sensor's identifier.
    pub uuid: String,
    /// When the measurement was taken.
    pub timestamp: String,
    pub hour: bool,
    pub humidity: String,
    pub media_month: bool,
    pub soil_humidity: String,
    pub temperature: String,
}

/// The mathematical content of a [`SensorData`].
pub struct SensorDataModel {
    pub uuid: Seq<char>,
    pub timestamp: Seq<char>,
    pub hour: bool,
    pub humidity: Seq<char>,
    pub media_month: bool,
    pub soil_humidity: Seq<char>,
    pub temperature: Seq<char>,
}

impl View for SensorData {
    type V = SensorDataModel;

    open spec fn view(&self) -> SensorDataModel {
        SensorDataModel {
            uuid: self.uuid@,
            timestamp: self.timestamp@,
            hour: self.hour,
            humidity: self.humidity@,
            media_month: self.media_month,
            soil_humidity: self.soil_humidity@,
            temperature: self.temperature@,
        }
    }
}

/// The outcome of reading each field of a measurement, in the order in
/// which they are read: `uuid` is a string, `hour` and `media_month` are
/// booleans, the others are numbers.
pub open spec fn measurement_outcomes(row: RowModel) -> Seq<Option<RowError>> {
    seq![
        text_error(row, "uuid"@),
        number_error(row, "timestamp"@),
        flag_error(row, "hour"@),
        number_error(row, "humidity"@),
        flag_error(row, "media_month"@),
        number_error(row, "soil_humidity"@),
        number_error(row, "temperature"@),
    ]
}

/// The measurement in a row: the error of the first field that cannot be
/// read, or the measurement read.
pub open spec fn measurement_of(row: RowModel) -> Result<SensorDataModel, RowError> {
    match first_error(measurement_outcomes(row)) {
        Some(e) => Err(e),
        None => Ok(
            SensorDataModel {
                uuid: text_of(row, "uuid"@)->Ok_0,
                timestamp: number_of(row, "timestamp"@)->Ok_0,
                hour: flag_of(row, "hour"@)->Ok_0,
                humidity: number_of(row, "humidity"@)->Ok_0,
                media_month: flag_of(row, "media_month"@)->Ok_0,
                soil_humidity: number_of(row, "soil_humidity"@)->Ok_0,
                temperature: number_of(row, "temperature"@)->Ok_0,
            },
        ),
    }
}

/// The measurements in the rows, or the error of the first row that holds
/// none.
pub open spec fn measurements_of(rows: Seq<RowModel>) -> Result<Seq<SensorDataModel>, RowError>
    decreases rows.len(),
{
    if rows.len() == 0 {
        Ok(Seq::empty())
    } else {
        match measurements_of(rows.drop_last()) {
            Err(e) => Err(e),
            Ok(list) => match measurement_of(rows.last()) {
                Err(e) => Err(e),
                Ok(m) => Ok(list.push(m)),
            },
        }
    }
}

/// The contents of a list of measurements.
pub open spec fn measurements_model(list: Seq<SensorData>) -> Seq<SensorDataModel> {
    list.map_values(|m: SensorData| m@)
}

/// An error in a prefix is the error of the whole list.
pub proof fn lemma_measurements_error_extends(rows: Seq<RowModel>, k: int)
    requires
        0 <= k <= rows.len(),
        measurements_of(rows.take(k)) is Err,
    ensures
        measurements_of(rows) == measurements_of(rows.take(k)),
    decreases rows.len() - k,
{
    if k < rows.len() {
        assert(rows.take(k + 1).drop_last() =~= rows.take(k));
        lemma_measurements_error_extends(rows, k + 1);
    } else {
        assert(rows.take(k) =~= rows);
    }
}

/// Reads the measurement in a row.
pub fn measurement(row: &Row) -> (r: Result<SensorData, RowError>)
    ensures
        match r {
            Ok(m) => measurement_of(row@) == Ok::<SensorDataModel, RowError>(m@),
            Err(e) => measurement_of(row@) == Err::<SensorDataModel, RowError>(e),
        },
{
    let ghost outcomes = measurement_outcomes(row@);
    let uuid = match row.text("uuid") {
        Err(e) => {
            proof {
                lemma_first_error_at(outcomes, 0);
            }
            return Err(e);
        },
        Ok(v) => v,
    };
    let timestamp = match row.number("timestamp") {
        Err(e) => {
            proof {
                lemma_first_error_at(outcomes, 1);
            }
            return Err(e);
        },
        Ok(v) => v,
    };
    let hour = match row.flag("hour") {
        Err(e) => {
            proof {
                lemma_first_error_at(outcomes, 2);
            }
            return Err(e);
        },
        Ok(v) => v,
    };
    let humidity = match row.number("humidity") {
        Err(e) => {
            proof {
                lemma_first_error_at(outcomes, 3);
            }
            return Err(e);
        },
        Ok(v) => v,
    };
    let media_month = match row.flag("media_month") {
        Err(e) => {
            proof {
                lemma_first_error_at(outcomes, 4);
            }
            return Err(e);
        },
        Ok(v) => v,
    };
    let soil_humidity = match row.number("soil_humidity") {
        Err(e) => {
            proof {
                lemma_first_error_at(outcomes, 5);
            }
            return Err(e);
        },
        Ok(v) => v,
    };
    let temperature = match row.number("temperature") {
        Err(e) => {
            proof {
                lemma_first_error_at(outcomes, 6);
            }
            return Err(e);
        },
        Ok(v) => v,
    };
    proof {
        lemma_no_error(outcomes);
    }
    Ok(
        SensorData {
            uuid: String::from_str(uuid),
            timestamp: String::from_str(timestamp),
            hour,
            humidity: String::from_str(humidity),
            media_month,
            soil_humidity: String::from_str(soil_humidity),
            temperature: String::from_str(temperature),
        },
    )
}

/// Reads the measurements of a sensor from their rows.
pub fn hashmap_to_lists(measurements: &Vec<Row>) -> (r: Result<Vec<SensorData>, RowError>)
    ensures
        match r {
            Ok(list) => measurements_of(rows_model(measurements@)) == Ok::<
                Seq<SensorDataModel>,
                RowError,
            >(measurements_model(list@)),
            Err(e) => measurements_of(rows_model(measurements@)) == Err::<
                Seq<SensorDataModel>,
                RowError,
            >(e),
        },
{
    let ghost model = rows_model(measurements@);
    let mut list: Vec<SensorData> = Vec::new();
    let mut i: usize = 0;
    assert(model.take(0) =~= Seq::<RowModel>::empty());
    assert(measurements_model(list@) =~= Seq::<SensorDataModel>::empty());
    while i < measurements.len()
        invariant
            i <= measurements.len(),
            model == rows_model(measurements@),
            measurements_of(model.take(i as int)) == Ok::<Seq<SensorDataModel>, RowError>(
                measurements_model(list@),
            ),
        decreases measurements.len() - i,
    {
        let ghost before = measurements_model(list@);
        assert(model.take(i as int + 1).drop_last() =~= model.take(i as int));
        assert(model.take(i as int + 1).last() == measurements@[i as int]@);
        match measurement(&measurements[i]) {
            Err(e) => {
                proof {
                    lemma_measurements_error_extends(model, i as int + 1);
                }
                return Err(e);
            },
            Ok(m) => {
                let ghost view = m@;
                list.push(m);
                assert(measurements_model(list@) =~= before.push(view));
            },
        }
        i += 1;
    }
    assert(model.take(i as int) =~= model);
    Ok(list)
}

/// The JSON text of a measurement: its fields in the order of the record,
/// the numbers as strings.
pub open spec fn measurement_json(m: SensorDataModel) -> Seq<char> {
    json_object(
        seq![
            json_member("uuid"@, json_string(m.uuid)),
            json_member("timestamp"@, json_string(m.timestamp)),
            json_member("hour"@, json_bool(m.hour)),
            json_member("humidity"@, json_string(m.humidity)),
            json_member("media_month"@, json_bool(m.media_month)),
            json_member("soil_humidity"@, json_string(m.soil_humidity)),
            json_member("temperature"@, json_string(m.temperature)),
        ],
    )
}

/// The JSON text of a list of measurements.
pub open spec fn measurements_json(list: Seq<SensorDataModel>) -> Seq<char> {
    json_array(list.map_values(|m: SensorDataModel| measurement_json(m)))
}

/// Writes a measurement as JSON.
pub fn measurement_text(m: &SensorData) -> (r: String)
    ensures
        r@ == measurement_json(m@),
{
    let mut members: Vec<String> = Vec::new();
    members.push(string_member("uuid", m.uuid.as_str()));
    members.push(string_member("timestamp", m.timestamp.as_str()));
    members.push(bool_member("hour", m.hour));
    members.push(string_member("humidity", m.humidity.as_str()));
    members.push(bool_member("media_month", m.media_month));
    members.push(string_member("soil_humidity", m.soil_humidity.as_str()));
    members.push(string_member("temperature", m.temperature.as_str()));
    assert(texts(members@) =~= seq![
        json_member("uuid"@, json_string(m.uuid@)),
        json_member("timestamp"@, json_string(m.timestamp@)),
        json_member("hour"@, json_bool(m.hour)),
        json_member("humidity"@, json_string(m.humidity@)),
        json_member("media_month"@, json_bool(m.media_month)),
        json_member("soil_humidity"@, json_string(m.soil_humidity@)),
        json_member("temperature"@, json_string(m.temperature@)),
    ]);
    object(&members)
}

/// Writes a list of measurements as JSON.
pub fn measurements_text(list: &Vec<SensorData>) -> (r: String)
    ensures
        r@ == measurements_json(measurements_model(list@)),
{
    let ghost model = measurements_model(list@);
    let mut items: Vec<String> = Vec::new();
    let mut i: usize = 0;
    while i < list.len()
        invariant
            i <= list.len(),
            model == measurements_model(list@),
            items@.len() == i,
            forall|j: int| 0 <= j < i ==> (#[trigger] items@[j])@ == measurement_json(model[j]),
        decreases list.len() - i,
    {
        items.push(measurement_text(&list[i]));
        i += 1;
    }
    assert(texts(items@) =~= model.map_values(|m: SensorDataModel| measurement_json(m)));
    array(&items)
}

/// The reply with the measurements found for a sensor.
pub fn measurements_reply(rows: &Vec<Row>) -> (r: Result<Reply, RowError>)
    ensures
        match r {
            Ok(reply) => measurements_of(rows_model(rows@)) is Ok && reply@ == html_reply(
                200,
                measurements_json(measurements_of(rows_model(rows@))->Ok_0),
            ),
            Err(e) => measurements_of(rows_model(rows@)) == Err::<Seq<SensorDataModel>, RowError>(e),
        },
{
    match hashmap_to_lists(rows) {
        Err(e) => Err(e),
        Ok(list) => Ok(Reply::html(200, measurements_text(&list))),
    }
}

} // verus!
