//! The rollup of a sensor table: twenty-four hourly rows become one monthly
//! row, eleven monthly rows give one yearly row.
//!
//! A pass works on a snapshot of the table and yields the store actions to
//! perform. Both phases read the same snapshot. Note that a compacted row
//! holds the sum of its sources, not their mean.

use vstd::prelude::*;
use vstd::string::StringExecFns;
use crate::attribute::{
    all_have, lemma_upsert_absent, lookup, number_of, rows_model, AttrModel, AttrValue, Row, RowError,
    RowModel,
};
use crate::clock::unix_now;
use crate::decimal::{decimal_text, parse_decimal, parse_spec, sum_decimals, total, Decimal};
use crate::digits::{i64_to_text, int_text};

verus! {

/// How many hourly rows make a monthly row.
pub const HOURLY_BATCH: usize = 24;

/// How many monthly rows make a yearly row.
pub const MONTHLY_BATCH: usize = 11;

/// A change to make to the table.
#[derive(Debug, PartialEq, Eq)]
pub enum StoreAction {
    /// Delete the row whose `timestamp` is this number.
    Delete { timestamp: String },
    /// Insert this row, replacing a row of the same `timestamp`.
    Put { row: Row },
}

/// The mathematical content of a [`StoreAction`].
pub enum ActionModel {
    Delete { timestamp: Seq<char> },
    Put { row: RowModel },
}

impl View for StoreAction {
    type V = ActionModel;

    open spec fn view(&self) -> ActionModel {
        match self {
            StoreAction::Delete { timestamp } => ActionModel::Delete { timestamp: timestamp@ },
            StoreAction::Put { row } => ActionModel::Put { row: row@ },
        }
    }
}

/// The contents of a list of actions.
pub open spec fn actions_model(actions: Seq<StoreAction>) -> Seq<ActionModel> {
    actions.map_values(|a: StoreAction| a@)
}

/// Whether the field `name` of the row is the boolean `true`.
pub open spec fn has_flag(row: RowModel, name: Seq<char>) -> bool {
    lookup(row, name) == Some(AttrModel::Bool(true))
}

/// The rows whose field `name` is `true`, in order.
pub open spec fn flagged(rows: Seq<RowModel>, name: Seq<char>) -> Seq<RowModel>
    decreases rows.len(),
{
    if rows.len() == 0 {
        Seq::empty()
    } else if has_flag(rows.last(), name) {
        flagged(rows.drop_last(), name).push(rows.last())
    } else {
        flagged(rows.drop_last(), name)
    }
}

/// The text of the number field `name` of every row, or the error of the
/// first row where it cannot be read.
pub open spec fn numbers_of(rows: Seq<RowModel>, name: Seq<char>) -> Result<Seq<Seq<char>>, RowError>
    decreases rows.len(),
{
    if rows.len() == 0 {
        Ok(Seq::empty())
    } else {
        match numbers_of(rows.drop_last(), name) {
            Err(e) => Err(e),
            Ok(texts) => match number_of(rows.last(), name) {
                Err(e) => Err(e),
                Ok(t) => Ok(texts.push(t)),
            },
        }
    }
}

/// The decimal in the number field `name` of a row.
pub open spec fn decimal_of(row: RowModel, name: Seq<char>) -> Result<Decimal, RowError> {
    match number_of(row, name) {
        Err(e) => Err(e),
        Ok(t) => parse_spec(t),
    }
}

/// The decimal in the number field `name` of every row, or the error of the
/// first row where it cannot be read.
pub open spec fn decimals_of(rows: Seq<RowModel>, name: Seq<char>) -> Result<Seq<Decimal>, RowError>
    decreases rows.len(),
{
    if rows.len() == 0 {
        Ok(Seq::empty())
    } else {
        match decimals_of(rows.drop_last(), name) {
            Err(e) => Err(e),
            Ok(values) => match decimal_of(rows.last(), name) {
                Err(e) => Err(e),
                Ok(d) => Ok(values.push(d)),
            },
        }
    }
}

/// The sum of the number field `name` over the rows; `NumberOutOfRange`
/// where the fields can be read and their sum cannot be held.
pub open spec fn sum_of(rows: Seq<RowModel>, name: Seq<char>) -> Result<Decimal, RowError> {
    match decimals_of(rows, name) {
        Err(e) => Err(e),
        Ok(values) => match total(values) {
            Some(t) => Ok(t),
            None => Err(RowError::NumberOutOfRange),
        },
    }
}

/// The monthly row made of the sums `temperature` and `humidity` at the
/// moment `now`.
pub open spec fn monthly_row(temperature: Decimal, humidity: Decimal, now: i64) -> RowModel {
    seq![
        ("media_temp"@, AttrModel::N(decimal_text(temperature))),
        ("media_hum"@, AttrModel::N(decimal_text(humidity))),
        ("hour"@, AttrModel::Bool(false)),
        ("media_month"@, AttrModel::Bool(true)),
        ("media_year"@, AttrModel::Bool(false)),
        ("timestamp"@, AttrModel::N(int_text(now as int))),
    ]
}

/// The yearly row made of the sums `temperature` and `humidity` at the
/// moment `now`.
pub open spec fn yearly_row(temperature: Decimal, humidity: Decimal, now: i64) -> RowModel {
    seq![
        ("media_temp"@, AttrModel::N(decimal_text(temperature))),
        ("media_hum"@, AttrModel::N(decimal_text(humidity))),
        ("hour"@, AttrModel::Bool(false)),
        ("media_year"@, AttrModel::Bool(true)),
        ("media_month"@, AttrModel::Bool(false)),
        ("timestamp"@, AttrModel::N(int_text(now as int))),
    ]
}

/// One deletion for each key, in order.
pub open spec fn deletions(keys: Seq<Seq<char>>) -> Seq<ActionModel> {
    Seq::new(keys.len(), |i: int| ActionModel::Delete { timestamp: keys[i] })
}

/// The actions of the hourly phase on the snapshot `rows` at the moment
/// `now`.
///
/// Every row must have a field `hour`. With exactly twenty-four rows whose
/// `hour` is `true`, those rows are deleted by their `timestamp`, in order,
/// and one monthly row with the sums of their `temperature` and `humidity`
/// is put. With any other count nothing is done.
pub open spec fn hourly_plan(rows: Seq<RowModel>, now: i64) -> Result<Seq<ActionModel>, RowError> {
    let picked = flagged(rows, "hour"@);
    if !all_have(rows, "hour"@) {
        Err(RowError::MissingField)
    } else if picked.len() != HOURLY_BATCH {
        Ok(Seq::empty())
    } else {
        match sum_of(picked, "temperature"@) {
            Err(e) => Err(e),
            Ok(t) => match sum_of(picked, "humidity"@) {
                Err(e) => Err(e),
                Ok(h) => match numbers_of(picked, "timestamp"@) {
                    Err(e) => Err(e),
                    Ok(keys) => Ok(
                        deletions(keys).push(ActionModel::Put { row: monthly_row(t, h, now) }),
                    ),
                },
            },
        }
    }
}

/// The actions of the monthly phase on the snapshot `rows` at the moment
/// `now`.
///
/// Every row must have a field `media_month`. With exactly eleven rows whose
/// `media_month` is `true`, one yearly row with the sums of their
/// `media_temp` and `media_hum` is put, and nothing is deleted. With any
/// other count nothing is done.
pub open spec fn monthly_plan(rows: Seq<RowModel>, now: i64) -> Result<Seq<ActionModel>, RowError> {
    let picked = flagged(rows, "media_month"@);
    if !all_have(rows, "media_month"@) {
        Err(RowError::MissingField)
    } else if picked.len() != MONTHLY_BATCH {
        Ok(Seq::empty())
    } else {
        match sum_of(picked, "media_temp"@) {
            Err(e) => Err(e),
            Ok(t) => match sum_of(picked, "media_hum"@) {
                Err(e) => Err(e),
                Ok(h) => Ok(seq![ActionModel::Put { row: yearly_row(t, h, now) }]),
            },
        }
    }
}

/// The actions of one pass: the hourly phase, then the monthly phase, both on
/// the same snapshot.
pub open spec fn pass_plan(rows: Seq<RowModel>, now_hourly: i64, now_monthly: i64) -> Result<
    Seq<ActionModel>,
    RowError,
> {
    match hourly_plan(rows, now_hourly) {
        Err(e) => Err(e),
        Ok(first) => match monthly_plan(rows, now_monthly) {
            Err(e) => Err(e),
            Ok(second) => Ok(first + second),
        },
    }
}

/// Copies out the rows whose field `name` is `true`; `MissingField` exactly
/// when some row has no such field.
pub fn select_flagged(rows: &Vec<Row>, name: &str) -> (r: Result<Vec<Row>, RowError>)
    ensures
        match r {
            Ok(picked) => all_have(rows_model(rows@), name@) && rows_model(picked@) == flagged(
                rows_model(rows@),
                name@,
            ),
            Err(e) => !all_have(rows_model(rows@), name@) && e == RowError::MissingField,
        },
{
    let ghost model = rows_model(rows@);
    let mut picked: Vec<Row> = Vec::new();
    let mut i: usize = 0;
    assert(model.take(0) =~= Seq::<RowModel>::empty());
    assert(rows_model(picked@) =~= Seq::<RowModel>::empty());
    while i < rows.len()
        invariant
            i <= rows.len(),
            model == rows_model(rows@),
            all_have(model.take(i as int), name@),
            rows_model(picked@) == flagged(model.take(i as int), name@),
        decreases rows.len() - i,
    {
        let ghost before = rows_model(picked@);
        assert(model.take(i as int + 1).drop_last() =~= model.take(i as int));
        assert(model.take(i as int + 1).last() == rows@[i as int]@);
        match rows[i].get(name) {
            None => {
                assert(lookup(model[i as int], name@) is None);
                return Err(RowError::MissingField);
            },
            Some(v) => {
                if v.is_bool(true) {
                    picked.push(rows[i].clone());
                    assert(rows_model(picked@) =~= before.push(rows@[i as int]@));
                }
            },
        }
        assert forall|j: int| 0 <= j < i + 1 implies lookup(
            #[trigger] model.take(i as int + 1)[j],
            name@,
        ) is Some by {
            if j < i {
                assert(model.take(i as int + 1)[j] == model.take(i as int)[j]);
            }
        }
        i += 1;
    }
    assert(model.take(i as int) =~= model);
    Ok(picked)
}

/// Reads the number field `name` of every row as text.
pub fn read_numbers(rows: &Vec<Row>, name: &str) -> (r: Result<Vec<String>, RowError>)
    ensures
        match r {
            Ok(texts) => numbers_of(rows_model(rows@), name@) == Ok::<Seq<Seq<char>>, RowError>(
                texts@.map_values(|s: String| s@),
            ),
            Err(e) => numbers_of(rows_model(rows@), name@) == Err::<Seq<Seq<char>>, RowError>(e),
        },
{
    let ghost model = rows_model(rows@);
    let mut texts: Vec<String> = Vec::new();
    let mut i: usize = 0;
    assert(model.take(0) =~= Seq::<RowModel>::empty());
    assert(texts@.map_values(|s: String| s@) =~= Seq::<Seq<char>>::empty());
    while i < rows.len()
        invariant
            i <= rows.len(),
            model == rows_model(rows@),
            numbers_of(model.take(i as int), name@) == Ok::<Seq<Seq<char>>, RowError>(
                texts@.map_values(|s: String| s@),
            ),
        decreases rows.len() - i,
    {
        let ghost before = texts@.map_values(|s: String| s@);
        assert(model.take(i as int + 1).drop_last() =~= model.take(i as int));
        assert(model.take(i as int + 1).last() == rows@[i as int]@);
        match rows[i].number(name) {
            Err(e) => {
                proof {
                    lemma_numbers_error_extends(model, name@, i as int + 1);
                }
                return Err(e);
            },
            Ok(t) => {
                texts.push(String::from_str(t));
                assert(texts@.map_values(|s: String| s@) =~= before.push(t@));
            },
        }
        i += 1;
    }
    assert(model.take(i as int) =~= model);
    Ok(texts)
}

/// Reads the number field `name` of every row as a decimal.
pub fn read_decimals(rows: &Vec<Row>, name: &str) -> (r: Result<Vec<Decimal>, RowError>)
    ensures
        match r {
            Ok(values) => decimals_of(rows_model(rows@), name@) == Ok::<Seq<Decimal>, RowError>(values@),
            Err(e) => decimals_of(rows_model(rows@), name@) == Err::<Seq<Decimal>, RowError>(e),
        },
{
    let ghost model = rows_model(rows@);
    let mut values: Vec<Decimal> = Vec::new();
    let mut i: usize = 0;
    assert(model.take(0) =~= Seq::<RowModel>::empty());
    while i < rows.len()
        invariant
            i <= rows.len(),
            model == rows_model(rows@),
            decimals_of(model.take(i as int), name@) == Ok::<Seq<Decimal>, RowError>(values@),
        decreases rows.len() - i,
    {
        assert(model.take(i as int + 1).drop_last() =~= model.take(i as int));
        assert(model.take(i as int + 1).last() == rows@[i as int]@);
        let read = match rows[i].number(name) {
            Err(e) => Err(e),
            Ok(t) => parse_decimal(t),
        };
        match read {
            Err(e) => {
                proof {
                    lemma_decimals_error_extends(model, name@, i as int + 1);
                }
                return Err(e);
            },
            Ok(d) => {
                values.push(d);
            },
        }
        i += 1;
    }
    assert(model.take(i as int) =~= model);
    Ok(values)
}

/// The sum of the number field `name` over the rows.
pub fn sum_field(rows: &Vec<Row>, name: &str) -> (r: Result<Decimal, RowError>)
    ensures
        r == sum_of(rows_model(rows@), name@),
{
    match read_decimals(rows, name) {
        Err(e) => Err(e),
        Ok(values) => match sum_decimals(&values) {
            Some(t) => Ok(t),
            None => Err(RowError::NumberOutOfRange),
        },
    }
}

/// An error in a prefix is the error of the whole list.
pub proof fn lemma_numbers_error_extends(rows: Seq<RowModel>, name: Seq<char>, k: int)
    requires
        0 <= k <= rows.len(),
        numbers_of(rows.take(k), name) is Err,
    ensures
        numbers_of(rows, name) == numbers_of(rows.take(k), name),
    decreases rows.len() - k,
{
    if k < rows.len() {
        assert(rows.take(k + 1).drop_last() =~= rows.take(k));
        lemma_numbers_error_extends(rows, name, k + 1);
    } else {
        assert(rows.take(k) =~= rows);
    }
}

/// An error in a prefix is the error of the whole list.
pub proof fn lemma_decimals_error_extends(rows: Seq<RowModel>, name: Seq<char>, k: int)
    requires
        0 <= k <= rows.len(),
        decimals_of(rows.take(k), name) is Err,
    ensures
        decimals_of(rows, name) == decimals_of(rows.take(k), name),
    decreases rows.len() - k,
{
    if k < rows.len() {
        assert(rows.take(k + 1).drop_last() =~= rows.take(k));
        lemma_decimals_error_extends(rows, name, k + 1);
    } else {
        assert(rows.take(k) =~= rows);
    }
}

/// The six field names of a compacted row differ from each other.
pub proof fn lemma_compacted_names_differ()
    ensures
        "media_temp"@ != "media_hum"@,
        "media_temp"@ != "hour"@,
        "media_temp"@ != "media_month"@,
        "media_temp"@ != "media_year"@,
        "media_temp"@ != "timestamp"@,
        "media_hum"@ != "hour"@,
        "media_hum"@ != "media_month"@,
        "media_hum"@ != "media_year"@,
        "media_hum"@ != "timestamp"@,
        "hour"@ != "media_month"@,
        "hour"@ != "media_year"@,
        "hour"@ != "timestamp"@,
        "media_month"@ != "media_year"@,
        "media_month"@ != "timestamp"@,
        "media_year"@ != "timestamp"@,
{
    reveal_strlit("media_temp");
    reveal_strlit("media_hum");
    reveal_strlit("hour");
    reveal_strlit("media_month");
    reveal_strlit("media_year");
    reveal_strlit("timestamp");
    assert("media_temp"@.len() == 10);
    assert("media_hum"@.len() == 9);
    assert("hour"@.len() == 4);
    assert("media_month"@.len() == 11);
    assert("media_year"@.len() == 10);
    assert("timestamp"@.len() == 9);
    assert("media_temp"@[6] != "media_year"@[6]);
    assert("media_hum"@[0] != "timestamp"@[0]);
}

/// The text of a decimal as a number value.
fn number_value(d: &Decimal) -> (r: AttrValue)
    ensures
        r@ == AttrModel::N(decimal_text(*d)),
{
    AttrValue::N(d.to_text())
}

/// Builds the monthly row for two sums at the moment `now`.
pub fn make_monthly_row(temperature: &Decimal, humidity: &Decimal, now: i64) -> (r: Row)
    ensures
        r@ == monthly_row(*temperature, *humidity, now),
{
    let r0 = Row::new();
    let r1 = r0.item("media_temp", number_value(temperature));
    let r2 = r1.item("media_hum", number_value(humidity));
    let r3 = r2.item("hour", AttrValue::Bool(false));
    let r4 = r3.item("media_month", AttrValue::Bool(true));
    let r5 = r4.item("media_year", AttrValue::Bool(false));
    let r6 = r5.item("timestamp", AttrValue::N(i64_to_text(now)));
    proof {
        lemma_compacted_names_differ();
        let t = AttrModel::N(decimal_text(*temperature));
        let h = AttrModel::N(decimal_text(*humidity));
        lemma_upsert_absent(r0@, "media_temp"@, t);
        lemma_upsert_absent(r1@, "media_hum"@, h);
        lemma_upsert_absent(r2@, "hour"@, AttrModel::Bool(false));
        lemma_upsert_absent(r3@, "media_month"@, AttrModel::Bool(true));
        lemma_upsert_absent(r4@, "media_year"@, AttrModel::Bool(false));
        lemma_upsert_absent(r5@, "timestamp"@, AttrModel::N(int_text(now as int)));
        assert(r6@ =~= monthly_row(*temperature, *humidity, now));
    }
    r6
}

/// Builds the yearly row for two sums at the moment `now`.
pub fn make_yearly_row(temperature: &Decimal, humidity: &Decimal, now: i64) -> (r: Row)
    ensures
        r@ == yearly_row(*temperature, *humidity, now),
{
    let r0 = Row::new();
    let r1 = r0.item("media_temp", number_value(temperature));
    let r2 = r1.item("media_hum", number_value(humidity));
    let r3 = r2.item("hour", AttrValue::Bool(false));
    let r4 = r3.item("media_year", AttrValue::Bool(true));
    let r5 = r4.item("media_month", AttrValue::Bool(false));
    let r6 = r5.item("timestamp", AttrValue::N(i64_to_text(now)));
    proof {
        lemma_compacted_names_differ();
        let t = AttrModel::N(decimal_text(*temperature));
        let h = AttrModel::N(decimal_text(*humidity));
        lemma_upsert_absent(r0@, "media_temp"@, t);
        lemma_upsert_absent(r1@, "media_hum"@, h);
        lemma_upsert_absent(r2@, "hour"@, AttrModel::Bool(false));
        lemma_upsert_absent(r3@, "media_year"@, AttrModel::Bool(true));
        lemma_upsert_absent(r4@, "media_month"@, AttrModel::Bool(false));
        lemma_upsert_absent(r5@, "timestamp"@, AttrModel::N(int_text(now as int)));
        assert(r6@ =~= yearly_row(*temperature, *humidity, now));
    }
    r6
}

/// One deletion for each key, in order.
fn delete_each(keys: Vec<String>) -> (r: Vec<StoreAction>)
    ensures
        actions_model(r@) == deletions(keys@.map_values(|s: String| s@)),
{
    let ghost texts = keys@.map_values(|s: String| s@);
    let mut actions: Vec<StoreAction> = Vec::new();
    let mut i: usize = 0;
    while i < keys.len()
        invariant
            i <= keys.len(),
            texts == keys@.map_values(|s: String| s@),
            actions@.len() == i,
            forall|j: int| 0 <= j < i ==> (#[trigger] actions@[j])@ == (ActionModel::Delete {
                timestamp: texts[j],
            }),
        decreases keys.len() - i,
    {
        actions.push(StoreAction::Delete { timestamp: keys[i].clone() });
        i += 1;
    }
    assert(actions_model(actions@) =~= deletions(texts));
    actions
}

/// Whether `r` is the hourly phase on `rows` at the moment `now`.
pub open spec fn is_hourly_at(r: Result<Vec<StoreAction>, RowError>, rows: Seq<RowModel>, now: i64) -> bool {
    match r {
        Ok(actions) => hourly_plan(rows, now) == Ok::<Seq<ActionModel>, RowError>(
            actions_model(actions@),
        ),
        Err(e) => hourly_plan(rows, now) == Err::<Seq<ActionModel>, RowError>(e),
    }
}

/// Whether `r` is the monthly phase on `rows` at the moment `now`.
pub open spec fn is_monthly_at(r: Result<Vec<StoreAction>, RowError>, rows: Seq<RowModel>, now: i64) -> bool {
    match r {
        Ok(actions) => monthly_plan(rows, now) == Ok::<Seq<ActionModel>, RowError>(
            actions_model(actions@),
        ),
        Err(e) => monthly_plan(rows, now) == Err::<Seq<ActionModel>, RowError>(e),
    }
}

/// The hourly phase on a snapshot of a table, at the moment `now`.
pub fn hourly_rollup(rows: &Vec<Row>, now: i64) -> (r: Result<Vec<StoreAction>, RowError>)
    ensures
        is_hourly_at(r, rows_model(rows@), now),
{
    let picked = match select_flagged(rows, "hour") {
        Err(e) => {
            return Err(e);
        },
        Ok(picked) => picked,
    };
    if picked.len() != HOURLY_BATCH {
        let none: Vec<StoreAction> = Vec::new();
        assert(actions_model(none@) =~= Seq::<ActionModel>::empty());
        return Ok(none);
    }
    let temperature = match sum_field(&picked, "temperature") {
        Err(e) => {
            return Err(e);
        },
        Ok(t) => t,
    };
    let humidity = match sum_field(&picked, "humidity") {
        Err(e) => {
            return Err(e);
        },
        Ok(h) => h,
    };
    let keys = match read_numbers(&picked, "timestamp") {
        Err(e) => {
            return Err(e);
        },
        Ok(keys) => keys,
    };
    let mut actions = delete_each(keys);
    let ghost deletes = actions_model(actions@);
    actions.push(StoreAction::Put { row: make_monthly_row(&temperature, &humidity, now) });
    assert(actions_model(actions@) =~= deletes.push(
        ActionModel::Put { row: monthly_row(temperature, humidity, now) },
    ));
    Ok(actions)
}

/// The monthly phase on a snapshot of a table, at the moment `now`.
pub fn monthly_rollup(rows: &Vec<Row>, now: i64) -> (r: Result<Vec<StoreAction>, RowError>)
    ensures
        is_monthly_at(r, rows_model(rows@), now),
{
    let picked = match select_flagged(rows, "media_month") {
        Err(e) => {
            return Err(e);
        },
        Ok(picked) => picked,
    };
    let mut actions: Vec<StoreAction> = Vec::new();
    if picked.len() != MONTHLY_BATCH {
        assert(actions_model(actions@) =~= Seq::<ActionModel>::empty());
        return Ok(actions);
    }
    let temperature = match sum_field(&picked, "media_temp") {
        Err(e) => {
            return Err(e);
        },
        Ok(t) => t,
    };
    let humidity = match sum_field(&picked, "media_hum") {
        Err(e) => {
            return Err(e);
        },
        Ok(h) => h,
    };
    actions.push(StoreAction::Put { row: make_yearly_row(&temperature, &humidity, now) });
    assert(actions_model(actions@) =~= seq![
        ActionModel::Put { row: yearly_row(temperature, humidity, now) },
    ]);
    Ok(actions)
}

/// Whether `r` is the pass on `rows` at the two moments.
pub open spec fn is_pass_at(
    r: Result<Vec<StoreAction>, RowError>,
    rows: Seq<RowModel>,
    now_hourly: i64,
    now_monthly: i64,
) -> bool {
    match r {
        Ok(actions) => pass_plan(rows, now_hourly, now_monthly) == Ok::<Seq<ActionModel>, RowError>(
            actions_model(actions@),
        ),
        Err(e) => pass_plan(rows, now_hourly, now_monthly) == Err::<Seq<ActionModel>, RowError>(e),
    }
}

/// One pass over a snapshot of a table: the hourly phase at the moment
/// `now_hourly`, then the monthly phase at the moment `now_monthly`.
pub fn plan_pass(rows: &Vec<Row>, now_hourly: i64, now_monthly: i64) -> (r: Result<
    Vec<StoreAction>,
    RowError,
>)
    ensures
        is_pass_at(r, rows_model(rows@), now_hourly, now_monthly),
{
    let mut first = match hourly_rollup(rows, now_hourly) {
        Err(e) => {
            return Err(e);
        },
        Ok(first) => first,
    };
    let mut second = match monthly_rollup(rows, now_monthly) {
        Err(e) => {
            return Err(e);
        },
        Ok(second) => second,
    };
    let ghost a = actions_model(first@);
    let ghost b = actions_model(second@);
    first.append(&mut second);
    assert(actions_model(first@) =~= a + b);
    Ok(first)
}

/// One pass over a snapshot of a table, stamped with the system clock: the
/// clock is read once for each phase, and the result is the pass at the two
/// moments read.
pub fn rollup_table(rows: &Vec<Row>) -> (r: Result<Vec<StoreAction>, RowError>)
    ensures
        exists|now_hourly: i64, now_monthly: i64|
            #[trigger] is_pass_at(r, rows_model(rows@), now_hourly, now_monthly),
{
    let now_hourly = unix_now();
    let now_monthly = unix_now();
    let r = plan_pass(rows, now_hourly, now_monthly);
    assert(is_pass_at(r, rows_model(rows@), now_hourly, now_monthly));
    r
}

/// The hourly phase on a snapshot of a table, stamped with the system
/// clock: the phase at the moment read.
pub fn hourly_rollup_now(rows: &Vec<Row>) -> (r: Result<Vec<StoreAction>, RowError>)
    ensures
        exists|now: i64| #[trigger] is_hourly_at(r, rows_model(rows@), now),
{
    let now = unix_now();
    let r = hourly_rollup(rows, now);
    assert(is_hourly_at(r, rows_model(rows@), now));
    r
}

/// The monthly phase on a snapshot of a table, stamped with the system
/// clock: the phase at the moment read. Run after the actions of the hourly
/// phase have been performed, on the snapshot that the hourly phase read,
/// the two phases make one pass.
pub fn monthly_rollup_now(rows: &Vec<Row>) -> (r: Result<Vec<StoreAction>, RowError>)
    ensures
        exists|now: i64| #[trigger] is_monthly_at(r, rows_model(rows@), now),
{
    let now = unix_now();
    let r = monthly_rollup(rows, now);
    assert(is_monthly_at(r, rows_model(rows@), now));
    r
}

/// What a pass does after the store has answered an action.
#[derive(Debug, Clone, Copy, PartialEq, Eq)]
pub enum Verdict {
    /// Go on with the next action.
    Continue,
    /// Give up the whole run.
    Abort,
}

/// Whether the pass goes on after an action: a delete that failed is passed
/// over, a put that failed ends the run.
pub open spec fn verdict_of(action: ActionModel, succeeded: bool) -> Verdict {
    if succeeded || action is Delete {
        Verdict::Continue
    } else {
        Verdict::Abort
    }
}

/// Decides whether the pass goes on after the store has answered `action`.
pub fn after_action(action: &StoreAction, succeeded: bool) -> (r: Verdict)
    ensures
        r == verdict_of(action@, succeeded),
{
    match action {
        StoreAction::Delete { .. } => Verdict::Continue,
        StoreAction::Put { .. } => if succeeded {
            Verdict::Continue
        } else {
            Verdict::Abort
        },
    }
}

} // verus!
