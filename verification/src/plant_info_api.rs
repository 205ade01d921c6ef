//! Plants and their sensors: which handler answers a request, where a
//! plant's settings are published, and who is registered for alerts.

use vstd::prelude::*;
use vstd::string::StringExecFns;
use crate::attribute::{upsert, AttrModel, AttrValue, Row, RowModel};
use crate::reply::{Reply, ReplyModel};
use crate::text::{joined, same_text};

verus! {

/// The handler that answers a request.
#[derive(Debug, Clone, Copy, PartialEq, Eq)]
pub enum Route {
    AddPlant,
    GetPlant,
    NotImplemented,
}

/// The handler for an HTTP method: `POST` adds a plant, `GET` reads one.
pub open spec fn route_of(method: Seq<char>) -> Route {
    if method == "POST"@ {
        Route::AddPlant
    } else if method == "GET"@ {
        Route::GetPlant
    } else {
        Route::NotImplemented
    }
}

/// Picks the handler for an HTTP method.
pub fn router(method: &str) -> (r: Route)
    ensures
        r == route_of(method@),
{
    if same_text(method, "POST") {
        Route::AddPlant
    } else if same_text(method, "GET") {
        Route::GetPlant
    } else {
        Route::NotImplemented
    }
}

/// Which plants a request reads.
#[derive(Debug, Clone, Copy, PartialEq, Eq)]
pub enum PlantQuery {
    /// All plants of the user.
    ByUser,
    /// The user's plant on one sensor.
    ByUserAndSensor,
}

/// The query for a sensor parameter: the text `NULL` stands for no sensor.
pub fn plant_query(sensor_id: &str) -> (r: PlantQuery)
    ensures
        r == if sensor_id@ == "NULL"@ {
            PlantQuery::ByUser
        } else {
            PlantQuery::ByUserAndSensor
        },
{
    if same_text(sensor_id, "NULL") {
        PlantQuery::ByUser
    } else {
        PlantQuery::ByUserAndSensor
    }
}

/// The reply of a handler: status 200 and JSON as the content type, with
/// the handler's text as the body.
pub fn json_reply(body: String) -> (r: Reply)
    ensures
        r@ == (ReplyModel { status: 200, content_type: "application/json"@, body: body@ }),
{
    Reply::with_type(200, "application/json", body)
}

/// The reply to a method that has no handler.
pub fn not_implemented() -> (r: Reply)
    ensures
        r@ == (ReplyModel {
            status: 200,
            content_type: "text/plain"@,
            body: "Method not implemented"@,
        }),
{
    Reply::with_type(200, "text/plain", String::from_str("Method not implemented"))
}

/// The topic on which the settings of the plant on a sensor are published.
pub fn plant_topic(sensor_id: &str) -> (r: String)
    ensures
        r@ == "sensor/plants/"@ + sensor_id@,
{
    joined("sensor/plants/", sensor_id)
}

/// Whether the user's device is registered for alerts: when an alert on
/// humidity, temperature or soil humidity is asked for.
pub fn wants_notification(humidity: bool, temperature: bool, soil_humidity: bool) -> (r: bool)
    ensures
        r == (humidity || temperature || soil_humidity),
{
    humidity || temperature || soil_humidity
}

/// What adding a plant answers, by whether the store took the plant.
pub fn add_plant_outcome(stored: bool) -> (r: Result<String, String>)
    ensures
        match r {
            Ok(text) => stored && text@ == "Plant added correctly"@,
            Err(text) => !stored && text@ == "Error during adding plant"@,
        },
{
    if stored {
        Ok(String::from_str("Plant added correctly"))
    } else {
        Err(String::from_str("Error during adding plant"))
    }
}

/// What reading plants answers when the store fails.
pub fn get_plant_failure() -> (r: String)
    ensures
        r@ == "Something went wrong while finding plant in DB"@,
{
    String::from_str("Something went wrong while finding plant in DB")
}

/// The row that registers a push endpoint with a user.
pub open spec fn registration_row(uid: Seq<char>, arn: Seq<char>) -> RowModel {
    upsert(upsert(Seq::empty(), "user_id"@, AttrModel::S(uid)), "arn"@, AttrModel::S(arn))
}

/// Builds the row that registers a push endpoint with a user.
pub fn registration_item(uid: &str, arn: &str) -> (r: Row)
    ensures
        r@ == registration_row(uid@, arn@),
{
    Row::new().item("user_id", AttrValue::S(String::from_str(uid))).item(
        "arn",
        AttrValue::S(String::from_str(arn)),
    )
}

} // verus!
