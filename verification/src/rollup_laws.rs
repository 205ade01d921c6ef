//! What a rollup pass does to a table, proved from the plan of the pass and
//! the model of the store.

use vstd::prelude::*;
use crate::attribute::{all_have, lookup, number_of, AttrModel, RowError, RowModel};
use crate::decimal::{decimal_text, lemma_total_is_sum, max_scale, total, units_sum, Decimal};
use crate::digits::{
    int_text, is_digit, lemma_digits_value_of_nat_digits, lemma_nat_digits_are_digits, nat_digits,
};
use crate::rollup::{
    decimals_of, deletions, flagged, has_flag, hourly_plan, lemma_compacted_names_differ,
    monthly_plan, monthly_row, numbers_of, pass_plan, sum_of, yearly_row, ActionModel,
    HOURLY_BATCH, MONTHLY_BATCH,
};
use crate::table::{
    apply, apply_all, is_fresh, lemma_apply_all_concat, lemma_deletions_effect,
    lemma_flagged_of_unflagged, lemma_flagged_rows, lemma_fresh_unflagged, lemma_remove_absent,
    lemma_unflagged_rows, lemma_without_flagged_keys, row_key, unflagged, valid_table,
};

verus! {

/// The number of rows whose `hour` is `true`.
pub open spec fn hourly_count(rows: Seq<RowModel>) -> nat {
    flagged(rows, "hour"@).len()
}

/// The number of rows whose `media_month` is `true`.
pub open spec fn monthly_count(rows: Seq<RowModel>) -> nat {
    flagged(rows, "media_month"@).len()
}

/// The sum of the field `name` over the rows whose `flag` is `true`, where
/// it can be formed.
pub open spec fn flagged_sum(rows: Seq<RowModel>, flag: Seq<char>, name: Seq<char>) -> Decimal {
    sum_of(flagged(rows, flag), name)->Ok_0
}

/// The monthly row that the hourly phase puts at the moment `now`.
pub open spec fn new_monthly_row(rows: Seq<RowModel>, now: i64) -> RowModel {
    monthly_row(
        flagged_sum(rows, "hour"@, "temperature"@),
        flagged_sum(rows, "hour"@, "humidity"@),
        now,
    )
}

/// The yearly row that the monthly phase puts at the moment `now`.
pub open spec fn new_yearly_row(rows: Seq<RowModel>, now: i64) -> RowModel {
    yearly_row(
        flagged_sum(rows, "media_month"@, "media_temp"@),
        flagged_sum(rows, "media_month"@, "media_hum"@),
        now,
    )
}

/// The table after the hourly phase: with a full batch, the rows that are
/// not hourly followed by the new monthly row; else the table as it was.
pub open spec fn after_hourly(rows: Seq<RowModel>, now: i64) -> Seq<RowModel> {
    if hourly_count(rows) == HOURLY_BATCH {
        unflagged(rows, "hour"@).push(new_monthly_row(rows, now))
    } else {
        rows
    }
}

/// The table after a whole pass: what the hourly phase leaves, followed by
/// the new yearly row where the snapshot held a full batch of monthly rows.
pub open spec fn after_pass(rows: Seq<RowModel>, now_hourly: i64, now_monthly: i64) -> Seq<RowModel> {
    if monthly_count(rows) == MONTHLY_BATCH {
        after_hourly(rows, now_hourly).push(new_yearly_row(rows, now_monthly))
    } else {
        after_hourly(rows, now_hourly)
    }
}

/// Whether the moments of a pass are new to the table: a row that the pass
/// puts has the key of no row of the snapshot, and the two rows that one
/// pass may put have different keys.
pub open spec fn moments_are_new(rows: Seq<RowModel>, now_hourly: i64, now_monthly: i64) -> bool {
    &&& hourly_count(rows) == HOURLY_BATCH ==> is_fresh(rows, now_hourly)
    &&& monthly_count(rows) == MONTHLY_BATCH ==> is_fresh(rows, now_monthly)
    &&& hourly_count(rows) == HOURLY_BATCH && monthly_count(rows) == MONTHLY_BATCH ==> now_hourly
        != now_monthly
}

/// Whether `sum` is the arithmetic sum of the values: written at the
/// largest of their scales, it counts as many units as all of them together.
pub open spec fn is_arithmetic_sum(sum: Decimal, values: Seq<Decimal>) -> bool {
    sum.scale == max_scale(values) && sum.units == units_sum(values, max_scale(values))
}

/// The fields of a monthly row.
pub proof fn lemma_monthly_row_fields(temperature: Decimal, humidity: Decimal, now: i64)
    ensures
        lookup(monthly_row(temperature, humidity, now), "media_temp"@) == Some(
            AttrModel::N(decimal_text(temperature)),
        ),
        lookup(monthly_row(temperature, humidity, now), "media_hum"@) == Some(
            AttrModel::N(decimal_text(humidity)),
        ),
        lookup(monthly_row(temperature, humidity, now), "hour"@) == Some(AttrModel::Bool(false)),
        lookup(monthly_row(temperature, humidity, now), "media_month"@) == Some(AttrModel::Bool(true)),
        lookup(monthly_row(temperature, humidity, now), "media_year"@) == Some(AttrModel::Bool(false)),
        lookup(monthly_row(temperature, humidity, now), "timestamp"@) == Some(
            AttrModel::N(int_text(now as int)),
        ),
        row_key(monthly_row(temperature, humidity, now)) == Some(int_text(now as int)),
{
    lemma_compacted_names_differ();
    reveal_with_fuel(lookup, 7);
    let r = monthly_row(temperature, humidity, now);
    let r1 = r.drop_first();
    let r2 = r1.drop_first();
    let r3 = r2.drop_first();
    let r4 = r3.drop_first();
    let r5 = r4.drop_first();
    assert(r1[0] == r[1] && r2[0] == r[2] && r3[0] == r[3] && r4[0] == r[4] && r5[0] == r[5]);
}

/// The fields of a yearly row.
pub proof fn lemma_yearly_row_fields(temperature: Decimal, humidity: Decimal, now: i64)
    ensures
        lookup(yearly_row(temperature, humidity, now), "media_temp"@) == Some(
            AttrModel::N(decimal_text(temperature)),
        ),
        lookup(yearly_row(temperature, humidity, now), "media_hum"@) == Some(
            AttrModel::N(decimal_text(humidity)),
        ),
        lookup(yearly_row(temperature, humidity, now), "hour"@) == Some(AttrModel::Bool(false)),
        lookup(yearly_row(temperature, humidity, now), "media_month"@) == Some(AttrModel::Bool(false)),
        lookup(yearly_row(temperature, humidity, now), "media_year"@) == Some(AttrModel::Bool(true)),
        lookup(yearly_row(temperature, humidity, now), "timestamp"@) == Some(
            AttrModel::N(int_text(now as int)),
        ),
        row_key(yearly_row(temperature, humidity, now)) == Some(int_text(now as int)),
{
    lemma_compacted_names_differ();
    reveal_with_fuel(lookup, 7);
    let r = yearly_row(temperature, humidity, now);
    let r1 = r.drop_first();
    let r2 = r1.drop_first();
    let r3 = r2.drop_first();
    let r4 = r3.drop_first();
    let r5 = r4.drop_first();
    assert(r1[0] == r[1] && r2[0] == r[2] && r3[0] == r[3] && r4[0] == r[4] && r5[0] == r[5]);
}

/// Different integers have different decimal texts.
pub proof fn lemma_int_text_injective(a: int, b: int)
    requires
        int_text(a) == int_text(b),
    ensures
        a == b,
{
    let ma = if a < 0 { (-a) as nat } else { a as nat };
    let mb = if b < 0 { (-b) as nat } else { b as nat };
    lemma_nat_digits_are_digits(ma);
    lemma_nat_digits_are_digits(mb);
    lemma_digits_value_of_nat_digits(ma);
    lemma_digits_value_of_nat_digits(mb);
    assert(is_digit(nat_digits(ma)[0]));
    assert(is_digit(nat_digits(mb)[0]));
    if a < 0 {
        assert(int_text(a)[0] == '-');
        assert(b < 0);
        assert(int_text(a).drop_first() =~= nat_digits(ma));
        assert(int_text(b).drop_first() =~= nat_digits(mb));
    } else {
        assert(int_text(a)[0] == nat_digits(ma)[0]);
        if b < 0 {
            assert(int_text(b)[0] == '-');
        }
    }
}

/// Where the number field of every row can be read, there is one text for
/// each row, and it is that row's.
pub proof fn lemma_numbers_of_each(rows: Seq<RowModel>, name: Seq<char>)
    requires
        numbers_of(rows, name) is Ok,
    ensures
        numbers_of(rows, name)->Ok_0.len() == rows.len(),
        forall|j: int|
            0 <= j < rows.len() ==> number_of(#[trigger] rows[j], name) == Ok::<Seq<char>, RowError>(
                numbers_of(rows, name)->Ok_0[j],
            ),
    decreases rows.len(),
{
    if rows.len() > 0 {
        lemma_numbers_of_each(rows.drop_last(), name);
        let texts = numbers_of(rows, name)->Ok_0;
        assert forall|j: int| 0 <= j < rows.len() implies number_of(#[trigger] rows[j], name) == Ok::<
            Seq<char>,
            RowError,
        >(texts[j]) by {
            if j < rows.len() - 1 {
                assert(rows.drop_last()[j] == rows[j]);
            }
        }
    }
}

/// The flagged and the unflagged rows together are as many as the rows.
pub proof fn lemma_flagged_unflagged_len(rows: Seq<RowModel>, name: Seq<char>)
    ensures
        flagged(rows, name).len() + unflagged(rows, name).len() == rows.len(),
    decreases rows.len(),
{
    if rows.len() > 0 {
        lemma_flagged_unflagged_len(rows.drop_last(), name);
    }
}

/// In a table, deleting the flagged rows by their keys leaves the unflagged
/// rows.
pub proof fn lemma_delete_flagged(rows: Seq<RowModel>, name: Seq<char>, keys: Seq<Seq<char>>)
    requires
        valid_table(rows),
        numbers_of(flagged(rows, name), "timestamp"@) == Ok::<Seq<Seq<char>>, RowError>(keys),
    ensures
        apply_all(rows, deletions(keys)) == unflagged(rows, name),
{
    let picked = flagged(rows, name);
    lemma_flagged_rows(rows, name);
    lemma_numbers_of_each(picked, "timestamp"@);
    assert forall|j: int| 0 <= j < picked.len() implies row_key(#[trigger] picked[j]) == Some(
        keys[j],
    ) by {
        assert(rows.contains(picked[j]));
        let i = choose|i: int| 0 <= i < rows.len() && rows[i] == picked[j];
        assert(row_key(rows[i]) is Some);
        assert(number_of(picked[j], "timestamp"@) == Ok::<Seq<char>, RowError>(keys[j]));
    }
    assert forall|i: int| 0 <= i < rows.len() implies ((row_key(#[trigger] rows[i]) is Some
        && keys.contains(row_key(rows[i])->0)) <==> has_flag(rows[i], name)) by {
        assert(row_key(rows[i]) is Some);
        if has_flag(rows[i], name) {
            assert(picked.contains(rows[i]));
            let j = choose|j: int| 0 <= j < picked.len() && picked[j] == rows[i];
            assert(row_key(picked[j]) == Some(keys[j]));
            assert(keys[j] == row_key(rows[i])->0);
        }
        if keys.contains(row_key(rows[i])->0) {
            let j = choose|j: int| 0 <= j < keys.len() && keys[j] == row_key(rows[i])->0;
            assert(row_key(picked[j]) == Some(keys[j]));
            assert(rows.contains(picked[j]));
            let other = choose|other: int| 0 <= other < rows.len() && rows[other] == picked[j];
            if other < i {
                assert(row_key(rows[other]) != row_key(rows[i]));
            } else if i < other {
                assert(row_key(rows[i]) != row_key(rows[other]));
            }
            assert(other == i);
            assert(has_flag(picked[j], name));
        }
    }
    lemma_deletions_effect(rows, keys);
    lemma_without_flagged_keys(rows, keys, name);
}

/// What the hourly phase does to a table: with a full batch, the hourly
/// rows leave and the new monthly row is added; else nothing changes.
pub proof fn lemma_hourly_effect(rows: Seq<RowModel>, now: i64)
    requires
        valid_table(rows),
        hourly_count(rows) == HOURLY_BATCH ==> is_fresh(rows, now),
        hourly_plan(rows, now) is Ok,
    ensures
        apply_all(rows, hourly_plan(rows, now)->Ok_0) == after_hourly(rows, now),
{
    let actions = hourly_plan(rows, now)->Ok_0;
    let picked = flagged(rows, "hour"@);
    if picked.len() == HOURLY_BATCH {
        let keys = numbers_of(picked, "timestamp"@)->Ok_0;
        let row = new_monthly_row(rows, now);
        assert(actions == deletions(keys).push(ActionModel::Put { row }));
        assert(actions.drop_last() =~= deletions(keys));
        lemma_delete_flagged(rows, "hour"@, keys);
        let left = unflagged(rows, "hour"@);
        lemma_monthly_row_fields(
            flagged_sum(rows, "hour"@, "temperature"@),
            flagged_sum(rows, "hour"@, "humidity"@),
            now,
        );
        lemma_fresh_unflagged(rows, "hour"@, now);
        lemma_remove_absent(left, int_text(now as int));
    } else {
        assert(actions =~= Seq::<ActionModel>::empty());
    }
}

/// What a pass does to a table.
///
/// For a table with distinct keys and moments that are new to it,
/// performing the actions of the pass gives: the table
/// without its hourly rows and with one new monthly row, where there were
/// twenty-four hourly rows; followed by one new yearly row, where there were
/// eleven monthly rows.
pub proof fn lemma_pass_effect(rows: Seq<RowModel>, now_hourly: i64, now_monthly: i64)
    requires
        valid_table(rows),
        moments_are_new(rows, now_hourly, now_monthly),
        pass_plan(rows, now_hourly, now_monthly) is Ok,
    ensures
        apply_all(rows, pass_plan(rows, now_hourly, now_monthly)->Ok_0) == after_pass(
            rows,
            now_hourly,
            now_monthly,
        ),
{
    let first = hourly_plan(rows, now_hourly)->Ok_0;
    let second = monthly_plan(rows, now_monthly)->Ok_0;
    lemma_hourly_effect(rows, now_hourly);
    lemma_apply_all_concat(rows, first, second);
    let base = after_hourly(rows, now_hourly);
    if monthly_count(rows) == MONTHLY_BATCH {
        let row = new_yearly_row(rows, now_monthly);
        assert(second == seq![ActionModel::Put { row }]);
        assert(second.drop_last() =~= Seq::<ActionModel>::empty());
        assert(second.last() == ActionModel::Put { row });
        assert(apply_all(base, second.drop_last()) == base);
        assert(apply_all(base, second) == apply(base, ActionModel::Put { row }));
        lemma_yearly_row_fields(
            flagged_sum(rows, "media_month"@, "media_temp"@),
            flagged_sum(rows, "media_month"@, "media_hum"@),
            now_monthly,
        );
        let key = int_text(now_monthly as int);
        assert forall|i: int| 0 <= i < base.len() implies row_key(#[trigger] base[i]) != Some(key) by {
            if hourly_count(rows) == HOURLY_BATCH {
                let left = unflagged(rows, "hour"@);
                lemma_fresh_unflagged(rows, "hour"@, now_monthly);
                if i < left.len() {
                    assert(base[i] == left[i]);
                } else {
                    lemma_monthly_row_fields(
                        flagged_sum(rows, "hour"@, "temperature"@),
                        flagged_sum(rows, "hour"@, "humidity"@),
                        now_hourly,
                    );
                    if int_text(now_hourly as int) == key {
                        lemma_int_text_injective(now_hourly as int, now_monthly as int);
                    }
                }
            }
        }
        lemma_remove_absent(base, key);
    } else {
        assert(second =~= Seq::<ActionModel>::empty());
    }
}

/// Every row of the table after a pass has a field `name`, where every row
/// of the snapshot had one and `name` is a field of the compacted rows.
proof fn lemma_after_pass_all_have(rows: Seq<RowModel>, now_hourly: i64, now_monthly: i64, name: Seq<char>)
    requires
        all_have(rows, name),
        name == "hour"@ || name == "media_month"@,
    ensures
        all_have(after_pass(rows, now_hourly, now_monthly), name),
{
    let after = after_pass(rows, now_hourly, now_monthly);
    let base = after_hourly(rows, now_hourly);
    lemma_unflagged_rows(rows, "hour"@);
    lemma_monthly_row_fields(
        flagged_sum(rows, "hour"@, "temperature"@),
        flagged_sum(rows, "hour"@, "humidity"@),
        now_hourly,
    );
    lemma_yearly_row_fields(
        flagged_sum(rows, "media_month"@, "media_temp"@),
        flagged_sum(rows, "media_month"@, "media_hum"@),
        now_monthly,
    );
    assert forall|i: int| 0 <= i < base.len() implies lookup(#[trigger] base[i], name) is Some by {
        if hourly_count(rows) == HOURLY_BATCH {
            let left = unflagged(rows, "hour"@);
            if i < left.len() {
                assert(base[i] == left[i]);
                assert(rows.contains(left[i]));
                let k = choose|k: int| 0 <= k < rows.len() && rows[k] == left[i];
                assert(lookup(rows[k], name) is Some);
            }
        }
    }
    assert forall|i: int| 0 <= i < after.len() implies lookup(#[trigger] after[i], name) is Some by {
        if i < base.len() {
            assert(after[i] == base[i]);
        }
    }
}

/// No row of the table after the hourly phase of a full batch is hourly.
proof fn lemma_after_pass_hourly_count(rows: Seq<RowModel>, now_hourly: i64, now_monthly: i64)
    ensures
        hourly_count(after_pass(rows, now_hourly, now_monthly)) == if hourly_count(rows)
            == HOURLY_BATCH {
            0
        } else {
            hourly_count(rows)
        },
{
    let base = after_hourly(rows, now_hourly);
    let after = after_pass(rows, now_hourly, now_monthly);
    lemma_monthly_row_fields(
        flagged_sum(rows, "hour"@, "temperature"@),
        flagged_sum(rows, "hour"@, "humidity"@),
        now_hourly,
    );
    lemma_yearly_row_fields(
        flagged_sum(rows, "media_month"@, "media_temp"@),
        flagged_sum(rows, "media_month"@, "media_hum"@),
        now_monthly,
    );
    if hourly_count(rows) == HOURLY_BATCH {
        let left = unflagged(rows, "hour"@);
        lemma_flagged_of_unflagged(rows, "hour"@);
        assert(base.drop_last() =~= left);
        assert(flagged(base, "hour"@) == flagged(left, "hour"@));
    }
    if monthly_count(rows) == MONTHLY_BATCH {
        assert(after.drop_last() =~= base);
        assert(flagged(after, "hour"@) == flagged(base, "hour"@));
    }
}

/// The number of monthly rows after a pass: one more than among the rows
/// that were not hourly, where a batch of hourly rows was compacted; else as
/// before.
proof fn lemma_after_pass_monthly_count(rows: Seq<RowModel>, now_hourly: i64, now_monthly: i64)
    ensures
        monthly_count(after_pass(rows, now_hourly, now_monthly)) == if hourly_count(rows)
            == HOURLY_BATCH {
            monthly_count(unflagged(rows, "hour"@)) + 1
        } else {
            monthly_count(rows)
        },
{
    let base = after_hourly(rows, now_hourly);
    let after = after_pass(rows, now_hourly, now_monthly);
    lemma_monthly_row_fields(
        flagged_sum(rows, "hour"@, "temperature"@),
        flagged_sum(rows, "hour"@, "humidity"@),
        now_hourly,
    );
    lemma_yearly_row_fields(
        flagged_sum(rows, "media_month"@, "media_temp"@),
        flagged_sum(rows, "media_month"@, "media_hum"@),
        now_monthly,
    );
    if hourly_count(rows) == HOURLY_BATCH {
        let left = unflagged(rows, "hour"@);
        assert(base.drop_last() =~= left);
        assert(flagged(base, "media_month"@) == flagged(left, "media_month"@).push(base.last()));
    }
    if monthly_count(rows) == MONTHLY_BATCH {
        assert(after.drop_last() =~= base);
        assert(flagged(after, "media_month"@) == flagged(base, "media_month"@));
    }
}

/// A table without a full batch is left as it is.
///
/// With a count of hourly rows other than twenty-four the hourly phase plans
/// nothing. Where the count of monthly rows is also other than eleven, the
/// pass plans nothing: no row is deleted, none is inserted, and the table is
/// what it was.
pub proof fn lemma_incomplete_batches_are_left_alone(
    rows: Seq<RowModel>,
    now_hourly: i64,
    now_monthly: i64,
)
    requires
        all_have(rows, "hour"@),
        hourly_count(rows) != HOURLY_BATCH,
    ensures
        hourly_plan(rows, now_hourly) == Ok::<Seq<ActionModel>, RowError>(Seq::empty()),
        all_have(rows, "media_month"@) && monthly_count(rows) != MONTHLY_BATCH ==> {
            &&& pass_plan(rows, now_hourly, now_monthly) == Ok::<Seq<ActionModel>, RowError>(
                Seq::empty(),
            )
            &&& apply_all(rows, pass_plan(rows, now_hourly, now_monthly)->Ok_0) == rows
        },
{
    if all_have(rows, "media_month"@) && monthly_count(rows) != MONTHLY_BATCH {
        assert(Seq::<ActionModel>::empty() + Seq::<ActionModel>::empty() =~= Seq::<ActionModel>::empty());
    }
}

/// A full batch of hourly rows is compacted into one monthly row.
///
/// For a table with exactly twenty-four hourly rows whose measurements can
/// be read, after one pass: no hourly row is left and none of the
/// twenty-four is in the table; the table is its other rows, then one new
/// row (then the yearly row, where the pass made one); the new row has
/// `hour` false, `media_month` true, `media_year` false, and its `media_temp`
/// and `media_hum` are the sums, not the means, of the twenty-four
/// `temperature` and `humidity` values.
pub proof fn lemma_full_hourly_batch_is_compacted(rows: Seq<RowModel>, now_hourly: i64, now_monthly: i64)
    requires
        valid_table(rows),
        moments_are_new(rows, now_hourly, now_monthly),
        pass_plan(rows, now_hourly, now_monthly) is Ok,
        hourly_count(rows) == HOURLY_BATCH,
    ensures
        ({
            let after = apply_all(rows, pass_plan(rows, now_hourly, now_monthly)->Ok_0);
            let picked = flagged(rows, "hour"@);
            let row = new_monthly_row(rows, now_hourly);
            let yearly = if monthly_count(rows) == MONTHLY_BATCH {
                seq![new_yearly_row(rows, now_monthly)]
            } else {
                Seq::empty()
            };
            &&& after == unflagged(rows, "hour"@).push(row) + yearly
            &&& after.len() == rows.len() - HOURLY_BATCH + 1 + yearly.len()
            &&& hourly_count(after) == 0
            &&& forall|i: int|
                0 <= i < rows.len() && has_flag(#[trigger] rows[i], "hour"@) ==> !after.contains(rows[i])
            &&& lookup(row, "hour"@) == Some(AttrModel::Bool(false))
            &&& lookup(row, "media_month"@) == Some(AttrModel::Bool(true))
            &&& lookup(row, "media_year"@) == Some(AttrModel::Bool(false))
            &&& decimals_of(picked, "temperature"@) is Ok
            &&& decimals_of(picked, "humidity"@) is Ok
            &&& total(decimals_of(picked, "temperature"@)->Ok_0) is Some
            &&& total(decimals_of(picked, "humidity"@)->Ok_0) is Some
            &&& lookup(row, "media_temp"@) == Some(
                AttrModel::N(decimal_text(total(decimals_of(picked, "temperature"@)->Ok_0)->0)),
            )
            &&& lookup(row, "media_hum"@) == Some(
                AttrModel::N(decimal_text(total(decimals_of(picked, "humidity"@)->Ok_0)->0)),
            )
            &&& is_arithmetic_sum(
                total(decimals_of(picked, "temperature"@)->Ok_0)->0,
                decimals_of(picked, "temperature"@)->Ok_0,
            )
            &&& is_arithmetic_sum(
                total(decimals_of(picked, "humidity"@)->Ok_0)->0,
                decimals_of(picked, "humidity"@)->Ok_0,
            )
        }),
{
    let after = apply_all(rows, pass_plan(rows, now_hourly, now_monthly)->Ok_0);
    let row = new_monthly_row(rows, now_hourly);
    let left = unflagged(rows, "hour"@);
    lemma_pass_effect(rows, now_hourly, now_monthly);
    lemma_after_pass_hourly_count(rows, now_hourly, now_monthly);
    lemma_flagged_unflagged_len(rows, "hour"@);
    lemma_total_is_sum(decimals_of(flagged(rows, "hour"@), "temperature"@)->Ok_0);
    lemma_total_is_sum(decimals_of(flagged(rows, "hour"@), "humidity"@)->Ok_0);
    lemma_monthly_row_fields(
        flagged_sum(rows, "hour"@, "temperature"@),
        flagged_sum(rows, "hour"@, "humidity"@),
        now_hourly,
    );
    if monthly_count(rows) == MONTHLY_BATCH {
        assert(after =~= left.push(row) + seq![new_yearly_row(rows, now_monthly)]);
    } else {
        assert(after =~= left.push(row) + Seq::<RowModel>::empty());
    }
    assert forall|i: int| 0 <= i < rows.len() && has_flag(#[trigger] rows[i], "hour"@) implies !after.contains(
        rows[i],
    ) by {
        if after.contains(rows[i]) {
            lemma_flagged_rows(after, "hour"@);
            let j = choose|j: int| 0 <= j < after.len() && after[j] == rows[i];
            assert(has_flag(after[j], "hour"@));
            assert(flagged(after, "hour"@).contains(after[j]));
        }
    }
}

/// A full batch of monthly rows yields one yearly row and stays.
///
/// For a table with exactly eleven monthly rows whose sums can be read,
/// after one pass: the table is what the hourly phase left, then one new row
/// with `media_year` true, `media_month` false, `hour` false, whose
/// `media_temp` and `media_hum` are the sums of the eleven; and each of the
/// eleven is still in the table, unless it was also one of twenty-four
/// hourly rows and left with them.
pub proof fn lemma_full_monthly_batch_yields_yearly_row(
    rows: Seq<RowModel>,
    now_hourly: i64,
    now_monthly: i64,
)
    requires
        valid_table(rows),
        moments_are_new(rows, now_hourly, now_monthly),
        pass_plan(rows, now_hourly, now_monthly) is Ok,
        monthly_count(rows) == MONTHLY_BATCH,
    ensures
        ({
            let after = apply_all(rows, pass_plan(rows, now_hourly, now_monthly)->Ok_0);
            let picked = flagged(rows, "media_month"@);
            let row = new_yearly_row(rows, now_monthly);
            &&& after == after_hourly(rows, now_hourly).push(row)
            &&& forall|i: int|
                0 <= i < rows.len() && has_flag(#[trigger] rows[i], "media_month"@) ==> (after.contains(
                    rows[i],
                ) <==> !(hourly_count(rows) == HOURLY_BATCH && has_flag(rows[i], "hour"@)))
            &&& lookup(row, "hour"@) == Some(AttrModel::Bool(false))
            &&& lookup(row, "media_month"@) == Some(AttrModel::Bool(false))
            &&& lookup(row, "media_year"@) == Some(AttrModel::Bool(true))
            &&& decimals_of(picked, "media_temp"@) is Ok
            &&& decimals_of(picked, "media_hum"@) is Ok
            &&& total(decimals_of(picked, "media_temp"@)->Ok_0) is Some
            &&& total(decimals_of(picked, "media_hum"@)->Ok_0) is Some
            &&& lookup(row, "media_temp"@) == Some(
                AttrModel::N(decimal_text(total(decimals_of(picked, "media_temp"@)->Ok_0)->0)),
            )
            &&& lookup(row, "media_hum"@) == Some(
                AttrModel::N(decimal_text(total(decimals_of(picked, "media_hum"@)->Ok_0)->0)),
            )
            &&& is_arithmetic_sum(
                total(decimals_of(picked, "media_temp"@)->Ok_0)->0,
                decimals_of(picked, "media_temp"@)->Ok_0,
            )
            &&& is_arithmetic_sum(
                total(decimals_of(picked, "media_hum"@)->Ok_0)->0,
                decimals_of(picked, "media_hum"@)->Ok_0,
            )
        }),
{
    let after = apply_all(rows, pass_plan(rows, now_hourly, now_monthly)->Ok_0);
    let base = after_hourly(rows, now_hourly);
    let row = new_yearly_row(rows, now_monthly);
    lemma_pass_effect(rows, now_hourly, now_monthly);
    lemma_after_pass_hourly_count(rows, now_hourly, now_monthly);
    lemma_yearly_row_fields(
        flagged_sum(rows, "media_month"@, "media_temp"@),
        flagged_sum(rows, "media_month"@, "media_hum"@),
        now_monthly,
    );
    lemma_unflagged_rows(rows, "hour"@);
    lemma_total_is_sum(decimals_of(flagged(rows, "media_month"@), "media_temp"@)->Ok_0);
    lemma_total_is_sum(decimals_of(flagged(rows, "media_month"@), "media_hum"@)->Ok_0);
    assert forall|i: int| 0 <= i < rows.len() && has_flag(#[trigger] rows[i], "media_month"@) implies (
    after.contains(rows[i]) <==> !(hourly_count(rows) == HOURLY_BATCH && has_flag(rows[i], "hour"@))) by {
        if hourly_count(rows) == HOURLY_BATCH && has_flag(rows[i], "hour"@) {
            if after.contains(rows[i]) {
                lemma_flagged_rows(after, "hour"@);
                let j = choose|j: int| 0 <= j < after.len() && after[j] == rows[i];
                assert(has_flag(after[j], "hour"@));
                assert(flagged(after, "hour"@).contains(after[j]));
            }
        } else if hourly_count(rows) == HOURLY_BATCH {
            let left = unflagged(rows, "hour"@);
            assert(left.contains(rows[i]));
            let j = choose|j: int| 0 <= j < left.len() && left[j] == rows[i];
            assert(after[j] == rows[i]);
        } else {
            assert(after[i] == rows[i]);
        }
    }
}

/// Whether a second pass, right after a first one on `rows`, finds nothing
/// to do: the first pass must not leave eleven monthly rows behind.
pub open spec fn settles(rows: Seq<RowModel>) -> bool {
    if hourly_count(rows) == HOURLY_BATCH {
        monthly_count(unflagged(rows, "hour"@)) + 1 != MONTHLY_BATCH
    } else {
        monthly_count(rows) != MONTHLY_BATCH
    }
}

/// A pass run again on what the first pass left plans nothing, exactly when
/// the table settles: the second pass never finds twenty-four hourly rows,
/// and it finds eleven monthly rows only where the first pass left that
/// many (it deletes no monthly row, and may have added one).
pub proof fn lemma_second_pass(
    rows: Seq<RowModel>,
    now_hourly: i64,
    now_monthly: i64,
    later_hourly: i64,
    later_monthly: i64,
)
    requires
        valid_table(rows),
        moments_are_new(rows, now_hourly, now_monthly),
        pass_plan(rows, now_hourly, now_monthly) is Ok,
    ensures
        ({
            let after = apply_all(rows, pass_plan(rows, now_hourly, now_monthly)->Ok_0);
            &&& hourly_plan(after, later_hourly) == Ok::<Seq<ActionModel>, RowError>(Seq::empty())
            &&& settles(rows) <==> pass_plan(after, later_hourly, later_monthly) == Ok::<
                Seq<ActionModel>,
                RowError,
            >(Seq::empty())
            &&& settles(rows) ==> apply_all(after, pass_plan(after, later_hourly, later_monthly)->Ok_0)
                == after
        }),
{
    let after = apply_all(rows, pass_plan(rows, now_hourly, now_monthly)->Ok_0);
    lemma_pass_effect(rows, now_hourly, now_monthly);
    lemma_after_pass_all_have(rows, now_hourly, now_monthly, "hour"@);
    lemma_after_pass_all_have(rows, now_hourly, now_monthly, "media_month"@);
    lemma_after_pass_hourly_count(rows, now_hourly, now_monthly);
    lemma_after_pass_monthly_count(rows, now_hourly, now_monthly);
    let none = Seq::<ActionModel>::empty();
    assert(none + none =~= none);
    if !settles(rows) {
        let second = monthly_plan(after, later_monthly);
        if second is Ok {
            assert(second->Ok_0.len() == 1);
            assert((none + second->Ok_0).len() == 1);
        }
    }
}

} // verus!
