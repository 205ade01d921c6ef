//! The settings of a plant as the store keeps them.
//!
//! Numbers are held in their text encoding, as the store writes them.

use vstd::prelude::*;
use vstd::string::StringExecFns;
use crate::attribute::{
    first_error, flag_error, flag_of, lemma_first_error_at, lemma_no_error, number_error, number_of,
    text_error, text_of, upsert, AttrModel, AttrValue, Row, RowError, RowModel,
};

verus! {

/// The settings of a plant.
#[derive(Debug, Clone, PartialEq, Eq)]
pub struct PostRequest {
    /// The user's identifier, taken from the request's token.
    pub user_id: String,
    pub plant_name: String,
    /// The identifier of the sensor that the plant is on.
    pub sensor_id: String,
    /// The token of the device to notify; not stored with the plant.
    pub device_token: String,
    pub default_temperature: String,
    pub temperature_limit: String,
    pub notify_wrong_temperature: bool,
    pub default_humidity: String,
    pub humidity_limit: String,
    pub notify_wrong_humidity: bool,
    pub default_precipitation: String,
    pub precipitation_limit: String,
    pub notify_wrong_soil_humidity: bool,
    pub default_light_color: String,
    /// Hours and minutes of light.
    pub light_time: String,
    pub light_intensity: String,
}

/// The mathematical content of a [`PostRequest`].
pub struct PostRequestModel {
    pub user_id: Seq<char>,
    pub plant_name: Seq<char>,
    pub sensor_id: Seq<char>,
    pub device_token: Seq<char>,
    pub default_temperature: Seq<char>,
    pub temperature_limit: Seq<char>,
    pub notify_wrong_temperature: bool,
    pub default_humidity: Seq<char>,
    pub humidity_limit: Seq<char>,
    pub notify_wrong_humidity: bool,
    pub default_precipitation: Seq<char>,
    pub precipitation_limit: Seq<char>,
    pub notify_wrong_soil_humidity: bool,
    pub default_light_color: Seq<char>,
    pub light_time: Seq<char>,
    pub light_intensity: Seq<char>,
}

impl View for PostRequest {
    type V = PostRequestModel;

    open spec fn view(&self) -> PostRequestModel {
        PostRequestModel {
            user_id: self.user_id@,
            plant_name: self.plant_name@,
            sensor_id: self.sensor_id@,
            device_token: self.device_token@,
            default_temperature: self.default_temperature@,
            temperature_limit: self.temperature_limit@,
            notify_wrong_temperature: self.notify_wrong_temperature,
            default_humidity: self.default_humidity@,
            humidity_limit: self.humidity_limit@,
            notify_wrong_humidity: self.notify_wrong_humidity,
            default_precipitation: self.default_precipitation@,
            precipitation_limit: self.precipitation_limit@,
            notify_wrong_soil_humidity: self.notify_wrong_soil_humidity,
            default_light_color: self.default_light_color@,
            light_time: self.light_time@,
            light_intensity: self.light_intensity@,
        }
    }
}

/// The outcome of reading each field of the settings, in the order in which
/// they are read. The light intensity is read from `default_temperature`.
pub open spec fn settings_outcomes(row: RowModel) -> Seq<Option<RowError>> {
    seq![
        text_error(row, "user_id"@),
        text_error(row, "plant_name"@),
        text_error(row, "sensor_id"@),
        number_error(row, "default_temperature"@),
        number_error(row, "temperature_limit"@),
        flag_error(row, "notify_wrong_temperature"@),
        number_error(row, "default_humidity"@),
        number_error(row, "humidity_limit"@),
        flag_error(row, "notify_wrong_humidity"@),
        number_error(row, "default_precipitation"@),
        number_error(row, "precipitation_limit"@),
        flag_error(row, "notify_wrong_soil_humidity"@),
        text_error(row, "default_light_color"@),
        number_error(row, "light_time"@),
        number_error(row, "default_temperature"@),
    ]
}

/// The settings in a row of the plants table: the error of the first field
/// that cannot be read, or the settings read. The device token is not
/// stored and comes back empty.
pub open spec fn settings_of(row: RowModel) -> Result<PostRequestModel, RowError> {
    match first_error(settings_outcomes(row)) {
        Some(e) => Err(e),
        None => Ok(
            PostRequestModel {
                user_id: text_of(row, "user_id"@)->Ok_0,
                plant_name: text_of(row, "plant_name"@)->Ok_0,
                sensor_id: text_of(row, "sensor_id"@)->Ok_0,
                device_token: Seq::empty(),
                default_temperature: number_of(row, "default_temperature"@)->Ok_0,
                temperature_limit: number_of(row, "temperature_limit"@)->Ok_0,
                notify_wrong_temperature: flag_of(row, "notify_wrong_temperature"@)->Ok_0,
                default_humidity: number_of(row, "default_humidity"@)->Ok_0,
                humidity_limit: number_of(row, "humidity_limit"@)->Ok_0,
                notify_wrong_humidity: flag_of(row, "notify_wrong_humidity"@)->Ok_0,
                default_precipitation: number_of(row, "default_precipitation"@)->Ok_0,
                precipitation_limit: number_of(row, "precipitation_limit"@)->Ok_0,
                notify_wrong_soil_humidity: flag_of(row, "notify_wrong_soil_humidity"@)->Ok_0,
                default_light_color: text_of(row, "default_light_color"@)->Ok_0,
                light_time: number_of(row, "light_time"@)->Ok_0,
                light_intensity: number_of(row, "default_temperature"@)->Ok_0,
            },
        ),
    }
}

/// Reads the settings of a plant from its row.
pub fn settings(row: &Row) -> (r: Result<PostRequest, RowError>)
    ensures
        match r {
            Ok(p) => settings_of(row@) == Ok::<PostRequestModel, RowError>(p@),
            Err(e) => settings_of(row@) == Err::<PostRequestModel, RowError>(e),
        },
{
    let ghost outcomes = settings_outcomes(row@);
    let user_id = match row.text("user_id") {
        Err(e) => {
            proof {
                lemma_first_error_at(outcomes, 0);
            }
            return Err(e);
        },
        Ok(v) => v,
    };
    let plant_name = match row.text("plant_name") {
        Err(e) => {
            proof {
                lemma_first_error_at(outcomes, 1);
            }
            return Err(e);
        },
        Ok(v) => v,
    };
    let sensor_id = match row.text("sensor_id") {
        Err(e) => {
            proof {
                lemma_first_error_at(outcomes, 2);
            }
            return Err(e);
        },
        Ok(v) => v,
    };
    let default_temperature = match row.number("default_temperature") {
        Err(e) => {
            proof {
                lemma_first_error_at(outcomes, 3);
            }
            return Err(e);
        },
        Ok(v) => v,
    };
    let temperature_limit = match row.number("temperature_limit") {
        Err(e) => {
            proof {
                lemma_first_error_at(outcomes, 4);
            }
            return Err(e);
        },
        Ok(v) => v,
    };
    let notify_wrong_temperature = match row.flag("notify_wrong_temperature") {
        Err(e) => {
            proof {
                lemma_first_error_at(outcomes, 5);
            }
            return Err(e);
        },
        Ok(v) => v,
    };
    let default_humidity = match row.number("default_humidity") {
        Err(e) => {
            proof {
                lemma_first_error_at(outcomes, 6);
            }
            return Err(e);
        },
        Ok(v) => v,
    };
    let humidity_limit = match row.number("humidity_limit") {
        Err(e) => {
            proof {
                lemma_first_error_at(outcomes, 7);
            }
            return Err(e);
        },
        Ok(v) => v,
    };
    let notify_wrong_humidity = match row.flag("notify_wrong_humidity") {
        Err(e) => {
            proof {
                lemma_first_error_at(outcomes, 8);
            }
            return Err(e);
        },
        Ok(v) => v,
    };
    let default_precipitation = match row.number("default_precipitation") {
        Err(e) => {
            proof {
                lemma_first_error_at(outcomes, 9);
            }
            return Err(e);
        },
        Ok(v) => v,
    };
    let precipitation_limit = match row.number("precipitation_limit") {
        Err(e) => {
            proof {
                lemma_first_error_at(outcomes, 10);
            }
            return Err(e);
        },
        Ok(v) => v,
    };
    let notify_wrong_soil_humidity = match row.flag("notify_wrong_soil_humidity") {
        Err(e) => {
            proof {
                lemma_first_error_at(outcomes, 11);
            }
            return Err(e);
        },
        Ok(v) => v,
    };
    let default_light_color = match row.text("default_light_color") {
        Err(e) => {
            proof {
                lemma_first_error_at(outcomes, 12);
            }
            return Err(e);
        },
        Ok(v) => v,
    };
    let light_time = match row.number("light_time") {
        Err(e) => {
            proof {
                lemma_first_error_at(outcomes, 13);
            }
            return Err(e);
        },
        Ok(v) => v,
    };
    let light_intensity = match row.number("default_temperature") {
        Err(e) => {
            proof {
                lemma_first_error_at(outcomes, 14);
            }
            return Err(e);
        },
        Ok(v) => v,
    };
    proof {
        lemma_no_error(outcomes);
    }
    Ok(
        PostRequest {
            user_id: String::from_str(user_id),
            plant_name: String::from_str(plant_name),
            sensor_id: String::from_str(sensor_id),
            device_token: String::new(),
            default_temperature: String::from_str(default_temperature),
            temperature_limit: String::from_str(temperature_limit),
            notify_wrong_temperature,
            default_humidity: String::from_str(default_humidity),
            humidity_limit: String::from_str(humidity_limit),
            notify_wrong_humidity,
            default_precipitation: String::from_str(default_precipitation),
            precipitation_limit: String::from_str(precipitation_limit),
            notify_wrong_soil_humidity,
            default_light_color: String::from_str(default_light_color),
            light_time: String::from_str(light_time),
            light_intensity: String::from_str(light_intensity),
        },
    )
}

/// The fields stored for a plant, in the order in which they are set, under
/// the names that the store has for them.
pub open spec fn plant_fields(p: PostRequestModel) -> RowModel {
    seq![
        ("user_id"@, AttrModel::S(p.user_id)),
        ("plant_name"@, AttrModel::S(p.plant_name)),
        ("sensor_id"@, AttrModel::S(p.sensor_id)),
        ("default_temperature"@, AttrModel::N(p.default_temperature)),
        ("temperature_limit"@, AttrModel::N(p.temperature_limit)),
        ("notify_wrong_temperaure"@, AttrModel::Bool(p.notify_wrong_temperature)),
        ("default_humidity"@, AttrModel::N(p.default_humidity)),
        ("humidity_limit"@, AttrModel::N(p.humidity_limit)),
        ("notify_wrong_humidity"@, AttrModel::Bool(p.notify_wrong_humidity)),
        ("default_precipitation"@, AttrModel::N(p.default_precipitation)),
        ("precipitation_limit"@, AttrModel::N(p.precipitation_limit)),
        ("notify_wrong_soil_humidity"@, AttrModel::Bool(p.notify_wrong_soil_humidity)),
        ("default_light_color"@, AttrModel::S(p.default_light_color)),
        ("light_time"@, AttrModel::N(p.light_time)),
        ("light_intensiy"@, AttrModel::N(p.light_intensity)),
    ]
}

/// The row that holds the fields, set one after another: a later name
/// replaces an equal earlier one.
pub open spec fn row_of_fields(fields: RowModel) -> RowModel
    decreases fields.len(),
{
    if fields.len() == 0 {
        Seq::empty()
    } else {
        upsert(row_of_fields(fields.drop_last()), fields.last().0, fields.last().1)
    }
}

/// The row stored for a plant.
pub open spec fn plant_row(p: PostRequestModel) -> RowModel {
    row_of_fields(plant_fields(p))
}

/// Sets one more field.
fn set(row: Row, name: &str, value: AttrValue, Ghost(fields): Ghost<RowModel>) -> (r: Row)
    requires
        row@ == row_of_fields(fields),
    ensures
        r@ == row_of_fields(fields.push((name@, value@))),
{
    assert(fields.push((name@, value@)).drop_last() =~= fields);
    row.item(name, value)
}

/// Builds the row stored for a plant.
pub fn plant_item(request: &PostRequest) -> (r: Row)
    ensures
        r@ == plant_row(request@),
{
    let ghost p = request@;
    let ghost all = plant_fields(p);
    let row = Row::new();
    assert(all.take(0) =~= Seq::<(Seq<char>, AttrModel)>::empty());
    let row = set(row, "user_id", AttrValue::S(request.user_id.clone()), Ghost(all.take(0)));
    assert(all.take(0).push(all[0]) =~= all.take(1));
    let row = set(row, "plant_name", AttrValue::S(request.plant_name.clone()), Ghost(all.take(1)));
    assert(all.take(1).push(all[1]) =~= all.take(2));
    let row = set(row, "sensor_id", AttrValue::S(request.sensor_id.clone()), Ghost(all.take(2)));
    assert(all.take(2).push(all[2]) =~= all.take(3));
    let row = set(
        row,
        "default_temperature",
        AttrValue::N(request.default_temperature.clone()),
        Ghost(all.take(3)),
    );
    assert(all.take(3).push(all[3]) =~= all.take(4));
    let row = set(
        row,
        "temperature_limit",
        AttrValue::N(request.temperature_limit.clone()),
        Ghost(all.take(4)),
    );
    assert(all.take(4).push(all[4]) =~= all.take(5));
    let row = set(
        row,
        "notify_wrong_temperaure",
        AttrValue::Bool(request.notify_wrong_temperature),
        Ghost(all.take(5)),
    );
    assert(all.take(5).push(all[5]) =~= all.take(6));
    let row = set(
        row,
        "default_humidity",
        AttrValue::N(request.default_humidity.clone()),
        Ghost(all.take(6)),
    );
    assert(all.take(6).push(all[6]) =~= all.take(7));
    let row = set(
        row,
        "humidity_limit",
        AttrValue::N(request.humidity_limit.clone()),
        Ghost(all.take(7)),
    );
    assert(all.take(7).push(all[7]) =~= all.take(8));
    let row = set(
        row,
        "notify_wrong_humidity",
        AttrValue::Bool(request.notify_wrong_humidity),
        Ghost(all.take(8)),
    );
    assert(all.take(8).push(all[8]) =~= all.take(9));
    let row = set(
        row,
        "default_precipitation",
        AttrValue::N(request.default_precipitation.clone()),
        Ghost(all.take(9)),
    );
    assert(all.take(9).push(all[9]) =~= all.take(10));
    let row = set(
        row,
        "precipitation_limit",
        AttrValue::N(request.precipitation_limit.clone()),
        Ghost(all.take(10)),
    );
    assert(all.take(10).push(all[10]) =~= all.take(11));
    let row = set(
        row,
        "notify_wrong_soil_humidity",
        AttrValue::Bool(request.notify_wrong_soil_humidity),
        Ghost(all.take(11)),
    );
    assert(all.take(11).push(all[11]) =~= all.take(12));
    let row = set(
        row,
        "default_light_color",
        AttrValue::S(request.default_light_color.clone()),
        Ghost(all.take(12)),
    );
    assert(all.take(12).push(all[12]) =~= all.take(13));
    let row = set(row, "light_time", AttrValue::N(request.light_time.clone()), Ghost(all.take(13)));
    assert(all.take(13).push(all[13]) =~= all.take(14));
    let row = set(
        row,
        "light_intensiy",
        AttrValue::N(request.light_intensity.clone()),
        Ghost(all.take(14)),
    );
    assert(all.take(14).push(all[14]) =~= all.take(15));
    assert(all.take(15) =~= all);
    row
}

} // verus!
