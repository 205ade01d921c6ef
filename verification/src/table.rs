//! A model of a sensor table: what the store's delete and put do to its rows.
//!
//! A table holds rows keyed by their `timestamp` number. The functions here
//! are specifications: they say what a table holds after store actions, so
//! that the effect of a rollup pass can be stated. Keys are compared as
//! texts: the store hands out each number in one canonical writing, and the
//! library writes moments in that same form.

use vstd::prelude::*;
use crate::attribute::{lookup, AttrModel, RowModel};
use crate::digits::int_text;
use crate::rollup::{deletions, flagged, has_flag, ActionModel};

verus! {

/// The key of a row: the text of its `timestamp` number.
pub open spec fn row_key(row: RowModel) -> Option<Seq<char>> {
    match lookup(row, "timestamp"@) {
        Some(AttrModel::N(k)) => Some(k),
        _ => None,
    }
}

/// The table without the row of the key `key`.
pub open spec fn remove_key(table: Seq<RowModel>, key: Seq<char>) -> Seq<RowModel>
    decreases table.len(),
{
    if table.len() == 0 {
        Seq::empty()
    } else if row_key(table.last()) == Some(key) {
        remove_key(table.drop_last(), key)
    } else {
        remove_key(table.drop_last(), key).push(table.last())
    }
}

/// The table after one action: a delete removes the row of that key, a put
/// replaces the row of the same key or adds the row.
pub open spec fn apply(table: Seq<RowModel>, action: ActionModel) -> Seq<RowModel> {
    match action {
        ActionModel::Delete { timestamp } => remove_key(table, timestamp),
        ActionModel::Put { row } => match row_key(row) {
            Some(k) => remove_key(table, k).push(row),
            None => table.push(row),
        },
    }
}

/// The table after a sequence of actions, performed in order.
pub open spec fn apply_all(table: Seq<RowModel>, actions: Seq<ActionModel>) -> Seq<RowModel>
    decreases actions.len(),
{
    if actions.len() == 0 {
        table
    } else {
        apply(apply_all(table, actions.drop_last()), actions.last())
    }
}

/// Whether the rows can be a table: each has a key, and no key occurs twice.
pub open spec fn valid_table(table: Seq<RowModel>) -> bool {
    &&& forall|i: int| 0 <= i < table.len() ==> row_key(#[trigger] table[i]) is Some
    &&& forall|i: int, j: int|
        0 <= i < j < table.len() ==> row_key(#[trigger] table[i]) != row_key(#[trigger] table[j])
}

/// Whether no row of the table has the moment `now` as its key.
pub open spec fn is_fresh(table: Seq<RowModel>, now: i64) -> bool {
    forall|i: int| 0 <= i < table.len() ==> row_key(#[trigger] table[i]) != Some(int_text(now as int))
}

/// The rows whose field `name` is not `true`, in order.
pub open spec fn unflagged(rows: Seq<RowModel>, name: Seq<char>) -> Seq<RowModel>
    decreases rows.len(),
{
    if rows.len() == 0 {
        Seq::empty()
    } else if has_flag(rows.last(), name) {
        unflagged(rows.drop_last(), name)
    } else {
        unflagged(rows.drop_last(), name).push(rows.last())
    }
}

/// The rows whose key is none of `keys`, in order.
pub open spec fn without_keys(table: Seq<RowModel>, keys: Seq<Seq<char>>) -> Seq<RowModel>
    decreases table.len(),
{
    if table.len() == 0 {
        Seq::empty()
    } else if row_key(table.last()) is Some && keys.contains(row_key(table.last())->0) {
        without_keys(table.drop_last(), keys)
    } else {
        without_keys(table.drop_last(), keys).push(table.last())
    }
}

/// Removing a key that no row has leaves the table as it is.
pub proof fn lemma_remove_absent(table: Seq<RowModel>, key: Seq<char>)
    requires
        forall|i: int| 0 <= i < table.len() ==> row_key(#[trigger] table[i]) != Some(key),
    ensures
        remove_key(table, key) == table,
    decreases table.len(),
{
    if table.len() > 0 {
        let rest = table.drop_last();
        assert forall|i: int| 0 <= i < rest.len() implies row_key(#[trigger] rest[i]) != Some(key) by {
            assert(rest[i] == table[i]);
        }
        lemma_remove_absent(rest, key);
        assert(table.last() == table[table.len() - 1]);
        assert(rest.push(table.last()) =~= table);
    } else {
        assert(table =~= Seq::<RowModel>::empty());
    }
}

/// Actions performed one list after another are the actions of the joined list.
pub proof fn lemma_apply_all_concat(table: Seq<RowModel>, a: Seq<ActionModel>, b: Seq<ActionModel>)
    ensures
        apply_all(table, a + b) == apply_all(apply_all(table, a), b),
    decreases b.len(),
{
    if b.len() == 0 {
        assert(a + b =~= a);
    } else {
        assert((a + b).drop_last() =~= a + b.drop_last());
        assert((a + b).last() == b.last());
        lemma_apply_all_concat(table, a, b.drop_last());
    }
}

/// With no key to avoid, every row stays.
pub proof fn lemma_without_no_keys(table: Seq<RowModel>)
    ensures
        without_keys(table, Seq::empty()) == table,
    decreases table.len(),
{
    if table.len() > 0 {
        lemma_without_no_keys(table.drop_last());
        assert(table.drop_last().push(table.last()) =~= table);
    } else {
        assert(table =~= Seq::<RowModel>::empty());
    }
}

/// Removing one more key from what is left without some keys leaves what is
/// without those keys and that one.
pub proof fn lemma_remove_from_without(table: Seq<RowModel>, keys: Seq<Seq<char>>, key: Seq<char>)
    ensures
        remove_key(without_keys(table, keys), key) == without_keys(table, keys.push(key)),
    decreases table.len(),
{
    if table.len() > 0 {
        let rest = table.drop_last();
        let x = table.last();
        lemma_remove_from_without(rest, keys, key);
        let more = keys.push(key);
        assert forall|z: Seq<char>| more.contains(z) <==> (keys.contains(z) || z == key) by {
            if keys.contains(z) {
                let i = choose|i: int| 0 <= i < keys.len() && keys[i] == z;
                assert(more[i] == z);
            }
            if z == key {
                assert(more[keys.len() as int] == z);
            }
        }
        if row_key(x) is Some && keys.contains(row_key(x)->0) {
        } else {
            let kept = without_keys(rest, keys);
            assert(kept.push(x).drop_last() =~= kept);
            assert(kept.push(x).last() == x);
        }
    }
}

/// Deleting keys one after another leaves the rows that have none of them.
pub proof fn lemma_deletions_effect(table: Seq<RowModel>, keys: Seq<Seq<char>>)
    ensures
        apply_all(table, deletions(keys)) == without_keys(table, keys),
    decreases keys.len(),
{
    let actions = deletions(keys);
    if keys.len() == 0 {
        lemma_without_no_keys(table);
        assert(keys =~= Seq::<Seq<char>>::empty());
    } else {
        let fewer = keys.drop_last();
        assert(actions.drop_last() =~= deletions(fewer));
        assert(actions.last() == ActionModel::Delete { timestamp: keys.last() });
        lemma_deletions_effect(table, fewer);
        lemma_remove_from_without(table, fewer, keys.last());
        assert(fewer.push(keys.last()) =~= keys);
    }
}

/// Where the keys to avoid are those of the flagged rows, the rows left are
/// the unflagged ones.
pub proof fn lemma_without_flagged_keys(table: Seq<RowModel>, keys: Seq<Seq<char>>, name: Seq<char>)
    requires
        forall|i: int|
            0 <= i < table.len() ==> ((row_key(#[trigger] table[i]) is Some && keys.contains(
                row_key(table[i])->0,
            )) <==> has_flag(table[i], name)),
    ensures
        without_keys(table, keys) == unflagged(table, name),
    decreases table.len(),
{
    if table.len() > 0 {
        let rest = table.drop_last();
        assert forall|i: int| 0 <= i < rest.len() implies ((row_key(#[trigger] rest[i]) is Some
            && keys.contains(row_key(rest[i])->0)) <==> has_flag(rest[i], name)) by {
            assert(rest[i] == table[i]);
        }
        lemma_without_flagged_keys(rest, keys, name);
        assert(table.last() == table[table.len() - 1]);
    }
}

/// The unflagged rows are rows of the table, and every unflagged row of the
/// table is among them.
pub proof fn lemma_unflagged_rows(rows: Seq<RowModel>, name: Seq<char>)
    ensures
        forall|j: int|
            0 <= j < unflagged(rows, name).len() ==> rows.contains(#[trigger] unflagged(rows, name)[j])
                && !has_flag(unflagged(rows, name)[j], name),
        forall|i: int|
            0 <= i < rows.len() && !has_flag(#[trigger] rows[i], name) ==> unflagged(rows, name).contains(
                rows[i],
            ),
        unflagged(rows, name).len() <= rows.len(),
    decreases rows.len(),
{
    if rows.len() > 0 {
        let rest = rows.drop_last();
        lemma_unflagged_rows(rest, name);
        let u = unflagged(rows, name);
        let g = unflagged(rest, name);
        assert forall|j: int| 0 <= j < u.len() implies rows.contains(#[trigger] u[j]) && !has_flag(
            u[j],
            name,
        ) by {
            if j < g.len() {
                let r = g[j];
                assert(u[j] == r);
                assert(rest.contains(r));
                let i = choose|i: int| 0 <= i < rest.len() && rest[i] == r;
                assert(rows[i] == r);
            } else {
                assert(u[j] == rows[rows.len() - 1]);
            }
        }
        assert forall|i: int| 0 <= i < rows.len() && !has_flag(#[trigger] rows[i], name) implies u.contains(
            rows[i],
        ) by {
            if i < rest.len() {
                assert(rest[i] == rows[i]);
                assert(g.contains(rest[i]));
                let j = choose|j: int| 0 <= j < g.len() && g[j] == rows[i];
                assert(u[j] == rows[i]);
            } else {
                assert(u[u.len() - 1] == rows[i]);
            }
        }
    }
}

/// The flagged rows are rows of the table, and every flagged row of the
/// table is among them.
pub proof fn lemma_flagged_rows(rows: Seq<RowModel>, name: Seq<char>)
    ensures
        forall|j: int|
            0 <= j < flagged(rows, name).len() ==> rows.contains(
                #[trigger] flagged(rows, name)[j],
            ) && has_flag(flagged(rows, name)[j], name),
        forall|i: int|
            0 <= i < rows.len() && has_flag(#[trigger] rows[i], name) ==> flagged(
                rows,
                name,
            ).contains(rows[i]),
        flagged(rows, name).len() <= rows.len(),
    decreases rows.len(),
{
    if rows.len() > 0 {
        let rest = rows.drop_last();
        lemma_flagged_rows(rest, name);
        let f = flagged(rows, name);
        let g = flagged(rest, name);
        assert forall|j: int| 0 <= j < f.len() implies rows.contains(#[trigger] f[j]) && has_flag(
            f[j],
            name,
        ) by {
            if j < g.len() {
                let r = g[j];
                assert(f[j] == r);
                assert(rest.contains(r));
                let i = choose|i: int| 0 <= i < rest.len() && rest[i] == r;
                assert(rows[i] == r);
            } else {
                assert(f[j] == rows[rows.len() - 1]);
            }
        }
        assert forall|i: int| 0 <= i < rows.len() && has_flag(#[trigger] rows[i], name) implies f.contains(
            rows[i],
        ) by {
            if i < rest.len() {
                assert(rest[i] == rows[i]);
                assert(g.contains(rest[i]));
                let j = choose|j: int| 0 <= j < g.len() && g[j] == rows[i];
                assert(f[j] == rows[i]);
            } else {
                assert(f[f.len() - 1] == rows[i]);
            }
        }
    }
}

/// A moment that is fresh for a table is fresh for its unflagged rows.
pub proof fn lemma_fresh_unflagged(rows: Seq<RowModel>, name: Seq<char>, now: i64)
    requires
        is_fresh(rows, now),
    ensures
        is_fresh(unflagged(rows, name), now),
{
    lemma_unflagged_rows(rows, name);
    let u = unflagged(rows, name);
    assert forall|j: int| 0 <= j < u.len() implies row_key(#[trigger] u[j]) != Some(
        int_text(now as int),
    ) by {
        assert(rows.contains(u[j]));
        let i = choose|i: int| 0 <= i < rows.len() && rows[i] == u[j];
        assert(row_key(rows[i]) != Some(int_text(now as int)));
    }
}

/// None of the unflagged rows is flagged.
pub proof fn lemma_flagged_of_unflagged(rows: Seq<RowModel>, name: Seq<char>)
    ensures
        flagged(unflagged(rows, name), name) == Seq::<RowModel>::empty(),
    decreases rows.len(),
{
    if rows.len() > 0 {
        lemma_flagged_of_unflagged(rows.drop_last(), name);
        if !has_flag(rows.last(), name) {
            let u = unflagged(rows.drop_last(), name);
            assert(u.push(rows.last()).drop_last() =~= u);
        }
    }
}

} // verus!
