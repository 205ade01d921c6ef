//! Ingestion of a sensor reading: the row that is stored for it, in the
//! table of its sensor.

use vstd::prelude::*;
use crate::attribute::{lemma_lookup_upsert, lookup, upsert, AttrModel, AttrValue, Row, RowModel};
use crate::clock::unix_now;
use crate::digits::{i64_to_text, i8_to_text, int_text};
use crate::json::{bool_text, json_bool};
use crate::rollup::has_flag;
use crate::table::row_key;
use crate::text::same_text;

verus! {

/// A reading sent by a sensor.
#[derive(Debug, Clone, PartialEq, Eq)]
pub struct Request {
    pub temperature: i8,
    pub humidity: i8,
    /// The sensor's identifier, which names its table.
    pub uuid: String,
    pub hour: bool,
    pub media_month: bool,
}

/// The name of the key of a sensor's table.
pub const TABLE_KEY: &'static str = "timestamp";

/// Whether a table of that name is among those listed.
pub fn table_exists(table_names: &Vec<String>, table_name: &str) -> (r: bool)
    ensures
        r == exists|i: int| 0 <= i < table_names@.len() && (#[trigger] table_names@[i])@ == table_name@,
{
    let mut i: usize = 0;
    while i < table_names.len()
        invariant
            i <= table_names.len(),
            forall|j: int| 0 <= j < i ==> (#[trigger] table_names@[j])@ != table_name@,
        decreases table_names.len() - i,
    {
        if same_text(table_names[i].as_str(), table_name) {
            return true;
        }
        i += 1;
    }
    false
}

/// The row stored for a reading: two numbers under `key` and `key2`, the
/// moment `now` under `timestamp`, and two booleans under `key3` and `key4`.
/// A later name replaces an equal earlier one.
pub open spec fn reading_row(
    key: Seq<char>,
    value: int,
    key2: Seq<char>,
    value2: int,
    key3: Seq<char>,
    value3: bool,
    key4: Seq<char>,
    value4: bool,
    now: int,
) -> RowModel {
    upsert(
        upsert(
            upsert(
                upsert(
                    upsert(Seq::empty(), key, AttrModel::N(int_text(value))),
                    key2,
                    AttrModel::N(int_text(value2)),
                ),
                "timestamp"@,
                AttrModel::N(int_text(now)),
            ),
            key3,
            AttrModel::Bool(value3),
        ),
        key4,
        AttrModel::Bool(value4),
    )
}

/// Builds the row stored for a reading at the moment `now`.
pub fn insert_item(
    key: &str,
    value: i8,
    key2: &str,
    value2: i8,
    key3: &str,
    value3: bool,
    key4: &str,
    value4: bool,
    now: i64,
) -> (r: Row)
    ensures
        r@ == reading_row(
            key@,
            value as int,
            key2@,
            value2 as int,
            key3@,
            value3,
            key4@,
            value4,
            now as int,
        ),
{
    Row::new().item(key, AttrValue::N(i8_to_text(value))).item(
        key2,
        AttrValue::N(i8_to_text(value2)),
    ).item("timestamp", AttrValue::N(i64_to_text(now))).item(key3, AttrValue::Bool(value3)).item(
        key4,
        AttrValue::Bool(value4),
    )
}

/// The row stored for a sensor's reading at the moment `now`.
pub open spec fn request_row(request: Request, now: int) -> RowModel {
    reading_row(
        "temperature"@,
        request.temperature as int,
        "humidity"@,
        request.humidity as int,
        "hour"@,
        request.hour,
        "media_month"@,
        request.media_month,
        now,
    )
}

/// What a stored reading holds: its two measurements as numbers, the
/// moment as its key, and its two flags as booleans. So a reading sent with
/// `hour` set is one of the hourly rows that the rollup selects.
pub proof fn lemma_reading_fields(request: Request, now: int)
    ensures
        lookup(request_row(request, now), "temperature"@) == Some(
            AttrModel::N(int_text(request.temperature as int)),
        ),
        lookup(request_row(request, now), "humidity"@) == Some(
            AttrModel::N(int_text(request.humidity as int)),
        ),
        lookup(request_row(request, now), "hour"@) == Some(AttrModel::Bool(request.hour)),
        lookup(request_row(request, now), "media_month"@) == Some(
            AttrModel::Bool(request.media_month),
        ),
        row_key(request_row(request, now)) == Some(int_text(now)),
        has_flag(request_row(request, now), "hour"@) == request.hour,
        has_flag(request_row(request, now), "media_month"@) == request.media_month,
{
    reveal_strlit("temperature");
    reveal_strlit("humidity");
    reveal_strlit("timestamp");
    reveal_strlit("hour");
    reveal_strlit("media_month");
    assert("temperature"@.len() == 11);
    assert("humidity"@.len() == 8);
    assert("timestamp"@.len() == 9);
    assert("hour"@.len() == 4);
    assert("media_month"@.len() == 11);
    assert("temperature"@[0] != "media_month"@[0]);
    let t = AttrModel::N(int_text(request.temperature as int));
    let h = AttrModel::N(int_text(request.humidity as int));
    let k = AttrModel::N(int_text(now));
    let r0 = Seq::<(Seq<char>, AttrModel)>::empty();
    let r1 = upsert(r0, "temperature"@, t);
    let r2 = upsert(r1, "humidity"@, h);
    let r3 = upsert(r2, "timestamp"@, k);
    let r4 = upsert(r3, "hour"@, AttrModel::Bool(request.hour));
    let r5 = upsert(r4, "media_month"@, AttrModel::Bool(request.media_month));
    assert(r5 == request_row(request, now));
    assert forall|name: Seq<char>| #![auto] lookup(r5, name) == if name == "media_month"@ {
        Some(AttrModel::Bool(request.media_month))
    } else if name == "hour"@ {
        Some(AttrModel::Bool(request.hour))
    } else if name == "timestamp"@ {
        Some(k)
    } else if name == "humidity"@ {
        Some(h)
    } else if name == "temperature"@ {
        Some(t)
    } else {
        None
    } by {
        lemma_lookup_upsert(r0, "temperature"@, t, name);
        lemma_lookup_upsert(r1, "humidity"@, h, name);
        lemma_lookup_upsert(r2, "timestamp"@, k, name);
        lemma_lookup_upsert(r3, "hour"@, AttrModel::Bool(request.hour), name);
        lemma_lookup_upsert(r4, "media_month"@, AttrModel::Bool(request.media_month), name);
    }
}

/// Builds the row stored for a sensor's reading at the moment `now`.
pub fn reading_item(request: &Request, now: i64) -> (r: Row)
    ensures
        r@ == request_row(*request, now as int),
{
    insert_item(
        "temperature",
        request.temperature,
        "humidity",
        request.humidity,
        "hour",
        request.hour,
        "media_month",
        request.media_month,
        now,
    )
}

/// Builds the row stored for a sensor's reading, stamped with the system
/// clock: the row of the reading at the moment read.
pub fn reading_item_now(request: &Request) -> (r: Row)
    ensures
        exists|now: i64| r@ == #[trigger] request_row(*request, now as int),
{
    let now = unix_now();
    let r = reading_item(request, now);
    assert(r@ == request_row(*request, now as int));
    r
}

/// The message that reports whether the reading was stored.
pub fn stored_message(stored: bool) -> (r: String)
    ensures
        r@ == json_bool(stored),
{
    bool_text(stored)
}

} // verus!
