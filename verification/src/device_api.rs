//! The device registry: which handler answers a request, how the devices of
//! a user are listed, and what the handlers reply.

use vstd::prelude::*;
use vstd::string::StringExecFns;
use crate::attribute::{rows_model, upsert, AttrModel, AttrValue, Row, RowError, RowModel};
use crate::json::{
    array, bool_member, comma_joined, is_plain, json_array, json_bool, json_member, json_object,
    json_string, lemma_plain_string, object, string_member, texts,
};
use crate::reply::{html_reply, Reply};
use crate::text::same_text;

verus! {

/// The handler that answers a request.
#[derive(Debug, Clone, Copy, PartialEq, Eq)]
pub enum Route {
    GetDevices,
    AddDevices,
    DeleteDevices,
    NotImplemented,
}

/// The handler for an HTTP method: `GET` lists, `POST` adds, `DELETE`
/// deletes, and nothing else is implemented.
pub open spec fn route_of(method: Seq<char>) -> Route {
    if method == "GET"@ {
        Route::GetDevices
    } else if method == "POST"@ {
        Route::AddDevices
    } else if method == "DELETE"@ {
        Route::DeleteDevices
    } else {
        Route::NotImplemented
    }
}

/// Picks the handler for an HTTP method.
pub fn router(method: &str) -> (r: Route)
    ensures
        r == route_of(method@),
{
    if same_text(method, "GET") {
        Route::GetDevices
    } else if same_text(method, "POST") {
        Route::AddDevices
    } else if same_text(method, "DELETE") {
        Route::DeleteDevices
    } else {
        Route::NotImplemented
    }
}

/// The JSON text of a reply body: whether it is an error, and a message.
pub open spec fn response_json(error: bool, message: Seq<char>) -> Seq<char> {
    json_object(
        seq![json_member("error"@, json_bool(error)), json_member("message"@, json_string(message))],
    )
}

/// Writes a reply body.
pub fn response_body(error: bool, message: &str) -> (r: String)
    ensures
        r@ == response_json(error, message@),
{
    let mut members: Vec<String> = Vec::new();
    members.push(bool_member("error", error));
    members.push(string_member("message", message));
    assert(texts(members@) =~= seq![
        json_member("error"@, json_bool(error)),
        json_member("message"@, json_string(message@)),
    ]);
    object(&members)
}

/// A reply body with a message of plain characters, written out.
pub proof fn lemma_response_text(error: bool, message: Seq<char>)
    requires
        forall|i: int| 0 <= i < message.len() ==> is_plain(#[trigger] message[i]),
    ensures
        response_json(error, message) == "{\"error\":"@ + json_bool(error) + ",\"message\":\""@
            + message + "\"}"@,
{
    reveal_strlit("error");
    reveal_strlit("message");
    reveal_strlit("{\"error\":");
    reveal_strlit(",\"message\":\"");
    reveal_strlit("\"}");
    lemma_plain_string("error"@);
    lemma_plain_string("message"@);
    lemma_plain_string(message);
    let first = json_member("error"@, json_bool(error));
    let second = json_member("message"@, json_string(message));
    let members = seq![first, second];
    assert(members.drop_last() =~= seq![first]);
    assert(comma_joined(members.drop_last()) == first);
    assert(comma_joined(members) == first + seq![','] + second);
    assert(response_json(error, message) =~= "{\"error\":"@ + json_bool(error) + ",\"message\":\""@
        + message + "\"}"@);
}

/// The reply to a method that has no handler: status 404 and an error body.
pub fn not_implemented() -> (r: Reply)
    ensures
        r@ == html_reply(404, response_json(true, "API not implemented"@)),
        r.body@ == "{\"error\":true,\"message\":\"API not implemented\"}"@,
{
    proof {
        reveal_strlit("API not implemented");
        reveal_strlit("true");
        reveal_strlit("{\"error\":");
        reveal_strlit(",\"message\":\"");
        reveal_strlit("\"}");
        reveal_strlit("{\"error\":true,\"message\":\"API not implemented\"}");
        lemma_response_text(true, "API not implemented"@);
        assert("{\"error\":"@ + json_bool(true) + ",\"message\":\""@ + "API not implemented"@ + "\"}"@
            =~= "{\"error\":true,\"message\":\"API not implemented\"}"@);
    }
    Reply::html(404, response_body(true, "API not implemented"))
}

/// The reply after a device was added.
pub fn device_added() -> (r: Reply)
    ensures
        r@ == html_reply(200, response_json(false, "Device added successfully"@)),
        r.body@ == "{\"error\":false,\"message\":\"Device added successfully\"}"@,
{
    proof {
        reveal_strlit("Device added successfully");
        reveal_strlit("false");
        reveal_strlit("{\"error\":");
        reveal_strlit(",\"message\":\"");
        reveal_strlit("\"}");
        reveal_strlit("{\"error\":false,\"message\":\"Device added successfully\"}");
        lemma_response_text(false, "Device added successfully"@);
        assert("{\"error\":"@ + json_bool(false) + ",\"message\":\""@ + "Device added successfully"@
            + "\"}"@ =~= "{\"error\":false,\"message\":\"Device added successfully\"}"@);
    }
    Reply::html(200, response_body(false, "Device added successfully"))
}

/// The reply after a device was deleted.
pub fn device_deleted() -> (r: Reply)
    ensures
        r@ == html_reply(200, response_json(false, "Device deleted successfully"@)),
        r.body@ == "{\"error\":false,\"message\":\"Device deleted successfully\"}"@,
{
    proof {
        reveal_strlit("Device deleted successfully");
        reveal_strlit("false");
        reveal_strlit("{\"error\":");
        reveal_strlit(",\"message\":\"");
        reveal_strlit("\"}");
        reveal_strlit("{\"error\":false,\"message\":\"Device deleted successfully\"}");
        lemma_response_text(false, "Device deleted successfully"@);
        assert("{\"error\":"@ + json_bool(false) + ",\"message\":\""@ + "Device deleted successfully"@
            + "\"}"@ =~= "{\"error\":false,\"message\":\"Device deleted successfully\"}"@);
    }
    Reply::html(200, response_body(false, "Device deleted successfully"))
}

/// The row that registers a device with a user; it is also the key by which
/// the registration is deleted.
pub open spec fn device_row(user_id: Seq<char>, device_id: Seq<char>) -> RowModel {
    upsert(
        upsert(Seq::empty(), "user_id"@, AttrModel::S(user_id)),
        "device_id"@,
        AttrModel::S(device_id),
    )
}

/// Builds the row that registers a device with a user.
pub fn device_item(user_id: &str, device_id: &str) -> (r: Row)
    ensures
        r@ == device_row(user_id@, device_id@),
{
    Row::new().item("user_id", AttrValue::S(String::from_str(user_id))).item(
        "device_id",
        AttrValue::S(String::from_str(device_id)),
    )
}

/// The JSON text of one listed entry.
pub open spec fn entry_json(name: Seq<char>, value: Seq<char>) -> Seq<char> {
    json_object(
        seq![json_member("user_id"@, json_string(name)), json_member("device_id"@, json_string(value))],
    )
}

/// One entry for each field of the row, in order: the field's name as
/// `user_id` and its string as `device_id`. `TypeMismatch` where a field
/// holds no string.
pub open spec fn row_entries(row: RowModel) -> Result<Seq<Seq<char>>, RowError>
    decreases row.len(),
{
    if row.len() == 0 {
        Ok(Seq::empty())
    } else {
        match row_entries(row.drop_last()) {
            Err(e) => Err(e),
            Ok(entries) => match row.last().1 {
                AttrModel::S(s) => Ok(entries.push(entry_json(row.last().0, s))),
                _ => Err(RowError::TypeMismatch),
            },
        }
    }
}

/// The entries of all rows, row after row, or the error of the first row
/// that has one.
pub open spec fn all_entries(rows: Seq<RowModel>) -> Result<Seq<Seq<char>>, RowError>
    decreases rows.len(),
{
    if rows.len() == 0 {
        Ok(Seq::empty())
    } else {
        match all_entries(rows.drop_last()) {
            Err(e) => Err(e),
            Ok(entries) => match row_entries(rows.last()) {
                Err(e) => Err(e),
                Ok(more) => Ok(entries + more),
            },
        }
    }
}

/// The JSON text that lists the rows found for a user.
pub open spec fn listing_json(rows: Seq<RowModel>) -> Result<Seq<char>, RowError> {
    match all_entries(rows) {
        Err(e) => Err(e),
        Ok(entries) => Ok(json_array(entries)),
    }
}

/// An error in a prefix of the fields is the error of the row.
pub proof fn lemma_row_entries_error_extends(row: RowModel, k: int)
    requires
        0 <= k <= row.len(),
        row_entries(row.take(k)) is Err,
    ensures
        row_entries(row) == row_entries(row.take(k)),
    decreases row.len() - k,
{
    if k < row.len() {
        assert(row.take(k + 1).drop_last() =~= row.take(k));
        lemma_row_entries_error_extends(row, k + 1);
    } else {
        assert(row.take(k) =~= row);
    }
}

/// An error in a prefix of the rows is the error of the list.
pub proof fn lemma_all_entries_error_extends(rows: Seq<RowModel>, k: int)
    requires
        0 <= k <= rows.len(),
        all_entries(rows.take(k)) is Err,
    ensures
        all_entries(rows) == all_entries(rows.take(k)),
    decreases rows.len() - k,
{
    if k < rows.len() {
        assert(rows.take(k + 1).drop_last() =~= rows.take(k));
        lemma_all_entries_error_extends(rows, k + 1);
    } else {
        assert(rows.take(k) =~= rows);
    }
}

/// Appends the entries of one row to `out`.
fn push_row_entries(out: &mut Vec<String>, row: &Row) -> (r: Result<(), RowError>)
    ensures
        match r {
            Ok(_) => row_entries(row@) is Ok && texts(final(out)@) == texts(old(out)@) + row_entries(
                row@,
            )->Ok_0,
            Err(e) => row_entries(row@) == Err::<Seq<Seq<char>>, RowError>(e),
        },
{
    let ghost model = row@;
    let mut i: usize = 0;
    assert(model.take(0) =~= Seq::<(Seq<char>, AttrModel)>::empty());
    assert(texts(out@) =~= texts(old(out)@) + Seq::<Seq<char>>::empty());
    while i < row.fields.len()
        invariant
            i <= row.fields.len(),
            model == row@,
            row_entries(model.take(i as int)) is Ok,
            texts(out@) == texts(old(out)@) + row_entries(model.take(i as int))->Ok_0,
        decreases row.fields.len() - i,
    {
        let ghost before = texts(out@);
        assert(model.take(i as int + 1).drop_last() =~= model.take(i as int));
        assert(model.take(i as int + 1).last() == model[i as int]);
        match &row.fields[i].value {
            AttrValue::S(s) => {
                let mut members: Vec<String> = Vec::new();
                members.push(string_member("user_id", row.fields[i].name.as_str()));
                members.push(string_member("device_id", s.as_str()));
                assert(texts(members@) =~= seq![
                    json_member("user_id"@, json_string(row.fields@[i as int].name@)),
                    json_member("device_id"@, json_string(s@)),
                ]);
                let entry = object(&members);
                out.push(entry);
                assert(texts(out@) =~= before.push(entry_json(model[i as int].0, s@)));
                assert(texts(out@) =~= texts(old(out)@) + row_entries(model.take(i as int + 1))->Ok_0);
            },
            _ => {
                proof {
                    lemma_row_entries_error_extends(model, i as int + 1);
                }
                return Err(RowError::TypeMismatch);
            },
        }
        i += 1;
    }
    assert(model.take(i as int) =~= model);
    Ok(())
}

/// Lists the rows found for a user as JSON text.
pub fn query_to_string(items: &Vec<Row>) -> (r: Result<String, RowError>)
    ensures
        match r {
            Ok(text) => listing_json(rows_model(items@)) == Ok::<Seq<char>, RowError>(text@),
            Err(e) => listing_json(rows_model(items@)) == Err::<Seq<char>, RowError>(e),
        },
{
    let ghost model = rows_model(items@);
    let mut entries: Vec<String> = Vec::new();
    let mut i: usize = 0;
    assert(model.take(0) =~= Seq::<RowModel>::empty());
    assert(texts(entries@) =~= Seq::<Seq<char>>::empty());
    while i < items.len()
        invariant
            i <= items.len(),
            model == rows_model(items@),
            all_entries(model.take(i as int)) == Ok::<Seq<Seq<char>>, RowError>(texts(entries@)),
        decreases items.len() - i,
    {
        assert(model.take(i as int + 1).drop_last() =~= model.take(i as int));
        assert(model.take(i as int + 1).last() == items@[i as int]@);
        match push_row_entries(&mut entries, &items[i]) {
            Err(e) => {
                proof {
                    lemma_all_entries_error_extends(model, i as int + 1);
                }
                return Err(e);
            },
            Ok(_) => {},
        }
        i += 1;
    }
    assert(model.take(i as int) =~= model);
    Ok(array(&entries))
}

/// The reply that lists the rows found for a user.
pub fn devices_reply(items: &Vec<Row>) -> (r: Result<Reply, RowError>)
    ensures
        match r {
            Ok(reply) => listing_json(rows_model(items@)) is Ok && reply@ == html_reply(
                200,
                listing_json(rows_model(items@))->Ok_0,
            ),
            Err(e) => listing_json(rows_model(items@)) == Err::<Seq<char>, RowError>(e),
        },
{
    match query_to_string(items) {
        Err(e) => Err(e),
        Ok(text) => Ok(Reply::html(200, text)),
    }
}

} // verus!
