//! Push notifications for a sensor reading out of range: what the message
//! says, how it is framed for the push service, and whom it goes to.

use vstd::prelude::*;
use vstd::string::StringExecFns;
use crate::attribute::{rows_model, text_of, Row, RowError, RowModel};
use crate::digits::{i8_to_text, int_text};
use crate::json::{
    comma_joined, is_plain, json_member, json_object, json_string, lemma_plain_string, member, object,
    string_member, texts,
};
use crate::text::joined;

verus! {

/// A sensor reading with the alerts that it raises.
#[derive(Debug, Clone, PartialEq, Eq)]
pub struct Request {
    pub user_id: String,
    pub is_temperature_notification: bool,
    pub is_humidity_notification: bool,
    pub temperature: i8,
    pub humidity: i8,
    pub soil_humidity: i8,
    pub hour: bool,
    pub media_month: bool,
    pub uuid: String,
}

/// The message handed to the push service: the notification as JSON text,
/// under the name of the delivery protocol.
#[derive(Debug, Clone, PartialEq, Eq)]
pub struct SNSProtocolMessage {
    pub gcm: String,
}

/// A device registered for notifications.
#[derive(Debug, Clone, PartialEq, Eq)]
pub struct NotificationDevice {
    pub arn: String,
}

/// Why no notification can be sent.
#[derive(Debug, Clone, Copy, PartialEq, Eq)]
pub enum NotifyError {
    /// The user has no registered device.
    NoDevices,
    /// A registration row cannot be read.
    Row(RowError),
}

/// The title for the alerts raised.
pub open spec fn title_text(temperature: bool, humidity: bool) -> Seq<char> {
    if temperature && humidity {
        "Agromate avvisi sensori"@
    } else if temperature {
        "Agromate avviso temperatura"@
    } else if humidity {
        "Agromate avviso umidità"@
    } else {
        Seq::empty()
    }
}

/// The body for the alerts raised: a fixed text where both are raised, else
/// the reading that is out of range.
pub open spec fn body_text(temperature: bool, humidity: bool, degrees: int, percent: int) -> Seq<char> {
    if temperature && humidity {
        "I sensori di umidità e temperatura indicano valore inadeguati per la tua pianta! Controlla la serra e mettila in un luogo più fresco"@
    } else if temperature {
        "La temperature è fuori dal range, temperatura attuale: "@ + int_text(degrees)
    } else if humidity {
        "L'umidità è fuori dal range, umidità attuale: "@ + int_text(percent)
    } else {
        Seq::empty()
    }
}

/// The notification as JSON: title and body for display, and two data
/// fields that are not used.
pub open spec fn notification_json(title: Seq<char>, body: Seq<char>) -> Seq<char> {
    json_object(
        seq![
            json_member(
                "notification"@,
                json_object(
                    seq![
                        json_member("title"@, json_string(title)),
                        json_member("body"@, json_string(body)),
                    ],
                ),
            ),
            json_member(
                "data"@,
                json_object(
                    seq![
                        json_member("custom_app_field1"@, json_string("not_used"@)),
                        json_member("custom_app_field2"@, json_string("not_used"@)),
                    ],
                ),
            ),
        ],
    )
}

/// An object of two members is the members with a comma between them, in
/// braces.
pub proof fn lemma_object_of_two(first: Seq<char>, second: Seq<char>)
    ensures
        json_object(seq![first, second]) == seq!['{'] + first + seq![','] + second + seq!['}'],
{
    let members = seq![first, second];
    assert(members.drop_last() =~= seq![first]);
    assert(comma_joined(members.drop_last()) == first);
    assert(comma_joined(members) == first + seq![','] + second);
}

/// A member whose name and string value are plain characters, written out.
pub proof fn lemma_plain_member(name: Seq<char>, value: Seq<char>)
    requires
        forall|i: int| 0 <= i < name.len() ==> is_plain(#[trigger] name[i]),
        forall|i: int| 0 <= i < value.len() ==> is_plain(#[trigger] value[i]),
    ensures
        json_member(name, json_string(value)) == seq!['"'] + name + seq!['"', ':', '"'] + value
            + seq!['"'],
{
    lemma_plain_string(name);
    lemma_plain_string(value);
    assert(json_member(name, json_string(value)) =~= seq!['"'] + name + seq!['"', ':', '"'] + value
        + seq!['"']);
}

/// The data of a notification, written out.
pub proof fn lemma_data_text()
    ensures
        json_member(
            "data"@,
            json_object(
                seq![
                    json_member("custom_app_field1"@, json_string("not_used"@)),
                    json_member("custom_app_field2"@, json_string("not_used"@)),
                ],
            ),
        ) == "\"data\":{\"custom_app_field1\":\"not_used\",\"custom_app_field2\":\"not_used\"}"@,
{
    reveal_strlit("data");
    reveal_strlit("custom_app_field1");
    reveal_strlit("custom_app_field2");
    reveal_strlit("not_used");
    reveal_strlit("\"data\":{\"custom_app_field1\":\"not_used\",\"custom_app_field2\":\"not_used\"}");
    let f1 = json_member("custom_app_field1"@, json_string("not_used"@));
    let f2 = json_member("custom_app_field2"@, json_string("not_used"@));
    lemma_plain_member("custom_app_field1"@, "not_used"@);
    lemma_plain_member("custom_app_field2"@, "not_used"@);
    lemma_object_of_two(f1, f2);
    lemma_plain_string("data"@);
    assert(json_member("data"@, json_object(seq![f1, f2]))
        =~= "\"data\":{\"custom_app_field1\":\"not_used\",\"custom_app_field2\":\"not_used\"}"@);
}

/// The display part of a notification whose title and body are plain
/// characters, written out.
pub proof fn lemma_display_text(title: Seq<char>, body: Seq<char>)
    requires
        forall|i: int| 0 <= i < title.len() ==> is_plain(#[trigger] title[i]),
        forall|i: int| 0 <= i < body.len() ==> is_plain(#[trigger] body[i]),
    ensures
        json_member(
            "notification"@,
            json_object(
                seq![
                    json_member("title"@, json_string(title)),
                    json_member("body"@, json_string(body)),
                ],
            ),
        ) == "\"notification\":{\"title\":\""@ + title + "\",\"body\":\""@ + body + "\"}"@,
{
    reveal_strlit("notification");
    reveal_strlit("title");
    reveal_strlit("body");
    reveal_strlit("\"notification\":{\"title\":\"");
    reveal_strlit("\",\"body\":\"");
    reveal_strlit("\"}");
    let t = json_member("title"@, json_string(title));
    let b = json_member("body"@, json_string(body));
    lemma_plain_member("title"@, title);
    lemma_plain_member("body"@, body);
    lemma_object_of_two(t, b);
    lemma_plain_string("notification"@);
    assert(json_member("notification"@, json_object(seq![t, b]))
        =~= "\"notification\":{\"title\":\""@ + title + "\",\"body\":\""@ + body + "\"}"@);
}

/// A notification whose title and body are plain characters, written out.
pub proof fn lemma_notification_text(title: Seq<char>, body: Seq<char>)
    requires
        forall|i: int| 0 <= i < title.len() ==> is_plain(#[trigger] title[i]),
        forall|i: int| 0 <= i < body.len() ==> is_plain(#[trigger] body[i]),
    ensures
        notification_json(title, body) == "{\"notification\":{\"title\":\""@ + title
            + "\",\"body\":\""@ + body + "\"},"@
            + "\"data\":{\"custom_app_field1\":\"not_used\",\"custom_app_field2\":\"not_used\"}}"@,
{
    let n = json_member(
        "notification"@,
        json_object(
            seq![json_member("title"@, json_string(title)), json_member("body"@, json_string(body))],
        ),
    );
    let d = json_member(
        "data"@,
        json_object(
            seq![
                json_member("custom_app_field1"@, json_string("not_used"@)),
                json_member("custom_app_field2"@, json_string("not_used"@)),
            ],
        ),
    );
    lemma_display_text(title, body);
    lemma_data_text();
    lemma_object_of_two(n, d);
    let data_text =
        "\"data\":{\"custom_app_field1\":\"not_used\",\"custom_app_field2\":\"not_used\"}"@;
    let data_closed =
        "\"data\":{\"custom_app_field1\":\"not_used\",\"custom_app_field2\":\"not_used\"}}"@;
    assert(data_closed =~= data_text + seq!['}']) by {
        reveal_strlit("\"data\":{\"custom_app_field1\":\"not_used\",\"custom_app_field2\":\"not_used\"}");
        reveal_strlit("\"data\":{\"custom_app_field1\":\"not_used\",\"custom_app_field2\":\"not_used\"}}");
    }
    let head = "{\"notification\":{\"title\":\""@;
    let head_open = "\"notification\":{\"title\":\""@;
    assert(head =~= seq!['{'] + head_open) by {
        reveal_strlit("{\"notification\":{\"title\":\"");
        reveal_strlit("\"notification\":{\"title\":\"");
    }
    let mid = "\"},"@;
    assert(mid =~= "\"}"@ + seq![',']) by {
        reveal_strlit("\"},");
        reveal_strlit("\"}");
    }
    assert(notification_json(title, body) =~= head + title + "\",\"body\":\""@ + body + mid
        + data_closed);
}

/// The JSON text that is published: the message under the name `GCM`.
pub open spec fn payload_json(gcm: Seq<char>) -> Seq<char> {
    json_object(seq![json_member("GCM"@, json_string(gcm))])
}

/// The title for the alerts of a reading.
pub fn notification_title(temperature: bool, humidity: bool) -> (r: String)
    ensures
        r@ == title_text(temperature, humidity),
{
    if temperature && humidity {
        String::from_str("Agromate avvisi sensori")
    } else if temperature {
        String::from_str("Agromate avviso temperatura")
    } else if humidity {
        String::from_str("Agromate avviso umidità")
    } else {
        String::new()
    }
}

/// The body for the alerts of a reading.
pub fn notification_body(temperature: bool, humidity: bool, degrees: i8, percent: i8) -> (r: String)
    ensures
        r@ == body_text(temperature, humidity, degrees as int, percent as int),
{
    if temperature && humidity {
        String::from_str(
            "I sensori di umidità e temperatura indicano valore inadeguati per la tua pianta! Controlla la serra e mettila in un luogo più fresco",
        )
    } else if temperature {
        let reading = i8_to_text(degrees);
        joined("La temperature è fuori dal range, temperatura attuale: ", reading.as_str())
    } else if humidity {
        let reading = i8_to_text(percent);
        joined("L'umidità è fuori dal range, umidità attuale: ", reading.as_str())
    } else {
        String::new()
    }
}

/// Frames a title and a body as the notification's JSON.
pub fn notification_text(title: &str, body: &str) -> (r: String)
    ensures
        r@ == notification_json(title@, body@),
{
    let mut display: Vec<String> = Vec::new();
    display.push(string_member("title", title));
    display.push(string_member("body", body));
    assert(texts(display@) =~= seq![
        json_member("title"@, json_string(title@)),
        json_member("body"@, json_string(body@)),
    ]);
    let mut data: Vec<String> = Vec::new();
    data.push(string_member("custom_app_field1", "not_used"));
    data.push(string_member("custom_app_field2", "not_used"));
    assert(texts(data@) =~= seq![
        json_member("custom_app_field1"@, json_string("not_used"@)),
        json_member("custom_app_field2"@, json_string("not_used"@)),
    ]);
    let display_text = object(&display);
    let data_text = object(&data);
    let mut whole: Vec<String> = Vec::new();
    whole.push(member("notification", display_text.as_str()));
    whole.push(member("data", data_text.as_str()));
    assert(texts(whole@) =~= seq![
        json_member("notification"@, display_text@),
        json_member("data"@, data_text@),
    ]);
    object(&whole)
}

/// The message for a reading: title and body by the alerts it raises,
/// framed as JSON.
pub fn create_notification_temperature(mqtt_message: &Request) -> (r: SNSProtocolMessage)
    ensures
        r.gcm@ == notification_json(
            title_text(mqtt_message.is_temperature_notification, mqtt_message.is_humidity_notification),
            body_text(
                mqtt_message.is_temperature_notification,
                mqtt_message.is_humidity_notification,
                mqtt_message.temperature as int,
                mqtt_message.humidity as int,
            ),
        ),
{
    let title = notification_title(
        mqtt_message.is_temperature_notification,
        mqtt_message.is_humidity_notification,
    );
    let body = notification_body(
        mqtt_message.is_temperature_notification,
        mqtt_message.is_humidity_notification,
        mqtt_message.temperature,
        mqtt_message.humidity,
    );
    SNSProtocolMessage { gcm: notification_text(title.as_str(), body.as_str()) }
}

/// The JSON text to publish for a message.
pub fn publish_payload(message: &SNSProtocolMessage) -> (r: String)
    ensures
        r@ == payload_json(message.gcm@),
{
    let mut whole: Vec<String> = Vec::new();
    whole.push(string_member("GCM", message.gcm.as_str()));
    assert(texts(whole@) =~= seq![json_member("GCM"@, json_string(message.gcm@))]);
    object(&whole)
}

/// The endpoint address of every registration row, or the error of the
/// first row whose `arn` cannot be read.
pub open spec fn arns_of(rows: Seq<RowModel>) -> Result<Seq<Seq<char>>, RowError>
    decreases rows.len(),
{
    if rows.len() == 0 {
        Ok(Seq::empty())
    } else {
        match arns_of(rows.drop_last()) {
            Err(e) => Err(e),
            Ok(arns) => match text_of(rows.last(), "arn"@) {
                Err(e) => Err(e),
                Ok(arn) => Ok(arns.push(arn)),
            },
        }
    }
}

/// The endpoint addresses of a list of devices.
pub open spec fn device_arns(devices: Seq<NotificationDevice>) -> Seq<Seq<char>> {
    devices.map_values(|d: NotificationDevice| d.arn@)
}

/// An error in a prefix is the error of the whole list.
pub proof fn lemma_arns_error_extends(rows: Seq<RowModel>, k: int)
    requires
        0 <= k <= rows.len(),
        arns_of(rows.take(k)) is Err,
    ensures
        arns_of(rows) == arns_of(rows.take(k)),
    decreases rows.len() - k,
{
    if k < rows.len() {
        assert(rows.take(k + 1).drop_last() =~= rows.take(k));
        lemma_arns_error_extends(rows, k + 1);
    } else {
        assert(rows.take(k) =~= rows);
    }
}

/// Reads the registered devices from their rows.
pub fn notification_devices(items: &Vec<Row>) -> (r: Result<Vec<NotificationDevice>, RowError>)
    ensures
        match r {
            Ok(devices) => arns_of(rows_model(items@)) == Ok::<Seq<Seq<char>>, RowError>(
                device_arns(devices@),
            ),
            Err(e) => arns_of(rows_model(items@)) == Err::<Seq<Seq<char>>, RowError>(e),
        },
{
    let ghost model = rows_model(items@);
    let mut devices: Vec<NotificationDevice> = Vec::new();
    let mut i: usize = 0;
    assert(model.take(0) =~= Seq::<RowModel>::empty());
    assert(device_arns(devices@) =~= Seq::<Seq<char>>::empty());
    while i < items.len()
        invariant
            i <= items.len(),
            model == rows_model(items@),
            arns_of(model.take(i as int)) == Ok::<Seq<Seq<char>>, RowError>(device_arns(devices@)),
        decreases items.len() - i,
    {
        let ghost before = device_arns(devices@);
        assert(model.take(i as int + 1).drop_last() =~= model.take(i as int));
        assert(model.take(i as int + 1).last() == items@[i as int]@);
        match items[i].text("arn") {
            Err(e) => {
                proof {
                    lemma_arns_error_extends(model, i as int + 1);
                }
                return Err(e);
            },
            Ok(arn) => {
                devices.push(NotificationDevice { arn: String::from_str(arn) });
                assert(device_arns(devices@) =~= before.push(arn@));
            },
        }
        i += 1;
    }
    assert(model.take(i as int) =~= model);
    Ok(devices)
}

/// Whom to notify: the first registered device. Every registration row
/// must be readable, and there must be one at least.
pub open spec fn target_of(rows: Seq<RowModel>) -> Result<Seq<char>, NotifyError> {
    match arns_of(rows) {
        Err(e) => Err(NotifyError::Row(e)),
        Ok(arns) => if arns.len() == 0 {
            Err(NotifyError::NoDevices)
        } else {
            Ok(arns[0])
        },
    }
}

/// The endpoint address to publish to, from the rows registered for a user.
pub fn target_arn(items: &Vec<Row>) -> (r: Result<String, NotifyError>)
    ensures
        match r {
            Ok(arn) => target_of(rows_model(items@)) == Ok::<Seq<char>, NotifyError>(arn@),
            Err(e) => target_of(rows_model(items@)) == Err::<Seq<char>, NotifyError>(e),
        },
{
    match notification_devices(items) {
        Err(e) => Err(NotifyError::Row(e)),
        Ok(devices) => {
            if devices.len() == 0 {
                Err(NotifyError::NoDevices)
            } else {
                Ok(devices[0].arn.clone())
            }
        },
    }
}

} // verus!
