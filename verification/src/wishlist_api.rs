//! Wishlists of plants: which handler answers a request, what is stored and
//! deleted, and what the handlers reply.

use vstd::prelude::*;
use vstd::string::StringExecFns;
use crate::attribute::{
    all_have, lookup, rows_model, text_of, upsert, AttrModel, AttrValue, Row, RowError, RowModel,
};
use crate::digits::{i8_to_text, int_text};
use crate::json::{array, json_array, json_member, json_object, json_string, object, string_member, texts};
use crate::reply::{html_reply, Reply};
use crate::text::{joined, same_text};

verus! {

/// A plant on a wishlist.
#[derive(Debug, Clone, PartialEq, Eq)]
pub struct Plant {
    /// The plant's identifier, made by the client.
    pub uuid: String,
    pub name: String,
}

/// The mathematical content of a [`Plant`].
pub struct PlantModel {
    pub uuid: Seq<char>,
    pub name: Seq<char>,
}

impl View for Plant {
    type V = PlantModel;

    open spec fn view(&self) -> PlantModel {
        PlantModel { uuid: self.uuid@, name: self.name@ }
    }
}

/// A request to put a plant on a wishlist.
#[derive(Debug, Clone, PartialEq, Eq)]
pub struct WishListRequest {
    /// The user's identifier.
    pub uid: String,
    pub plant: Plant,
    /// The wishlist chosen.
    pub list_id: i8,
}

/// The handler that answers a request.
#[derive(Debug, Clone, Copy, PartialEq, Eq)]
pub enum Route {
    AddPlant,
    DeleteList,
    DeletePlant,
    GetList,
    NotImplemented,
}

/// The handler for an HTTP method: `POST` adds a plant, `DELETE` deletes a
/// list, `PUT` deletes a plant, `GET` reads the lists.
pub open spec fn route_of(method: Seq<char>) -> Route {
    if method == "POST"@ {
        Route::AddPlant
    } else if method == "DELETE"@ {
        Route::DeleteList
    } else if method == "PUT"@ {
        Route::DeletePlant
    } else if method == "GET"@ {
        Route::GetList
    } else {
        Route::NotImplemented
    }
}

/// Picks the handler for an HTTP method.
pub fn router(method: &str) -> (r: Route)
    ensures
        r == route_of(method@),
{
    if same_text(method, "POST") {
        Route::AddPlant
    } else if same_text(method, "DELETE") {
        Route::DeleteList
    } else if same_text(method, "PUT") {
        Route::DeletePlant
    } else if same_text(method, "GET") {
        Route::GetList
    } else {
        Route::NotImplemented
    }
}

/// The reply to a request that was carried out.
pub fn success_response() -> (r: Reply)
    ensures
        r@ == html_reply(200, "OK"@),
{
    Reply::html(200, String::from_str("OK"))
}

/// The reply to a request that failed in the handler `endpoint`.
pub fn internal_server_error(endpoint: &str) -> (r: Reply)
    ensures
        r@ == html_reply(500, "Internal Server Error in "@ + endpoint@),
{
    Reply::html(500, joined("Internal Server Error in ", endpoint))
}

/// The reply to a method that has no handler.
pub fn not_implemented() -> (r: Reply)
    ensures
        r@ == html_reply(501, "Not implemented"@),
{
    Reply::html(501, String::from_str("Not implemented"))
}

/// The reply for the outcome of a store request made by `endpoint`.
pub fn outcome_reply(done: bool, endpoint: &str) -> (r: Reply)
    ensures
        r@ == if done {
            html_reply(200, "OK"@)
        } else {
            html_reply(500, "Internal Server Error in "@ + endpoint@)
        },
{
    if done {
        success_response()
    } else {
        internal_server_error(endpoint)
    }
}

/// The row stored for a request.
pub open spec fn wish_row(uid: Seq<char>, name: Seq<char>, list_id: int, uuid: Seq<char>) -> RowModel {
    upsert(
        upsert(
            upsert(
                upsert(Seq::empty(), "user_id"@, AttrModel::S(uid)),
                "plant_name"@,
                AttrModel::S(name),
            ),
            "list_id"@,
            AttrModel::N(int_text(list_id)),
        ),
        "uuid"@,
        AttrModel::S(uuid),
    )
}

/// Builds the row stored for a request.
pub fn wish_item(details: &WishListRequest) -> (r: Row)
    ensures
        r@ == wish_row(
            details.uid@,
            details.plant.name@,
            details.list_id as int,
            details.plant.uuid@,
        ),
{
    Row::new().item("user_id", AttrValue::S(details.uid.clone())).item(
        "plant_name",
        AttrValue::S(details.plant.name.clone()),
    ).item("list_id", AttrValue::N(i8_to_text(details.list_id))).item(
        "uuid",
        AttrValue::S(details.plant.uuid.clone()),
    )
}

/// The key of a plant of a user: the plant's `uuid` value and the user.
pub open spec fn plant_key(uuid: AttrModel, uid: Seq<char>) -> RowModel {
    upsert(upsert(Seq::empty(), "uuid"@, uuid), "user_id"@, AttrModel::S(uid))
}

/// Builds the key by which one plant of a user is deleted.
pub fn plant_key_item(plant_uuid: &str, uid: &str) -> (r: Row)
    ensures
        r@ == plant_key(AttrModel::S(plant_uuid@), uid@),
{
    Row::new().item("uuid", AttrValue::S(String::from_str(plant_uuid))).item(
        "user_id",
        AttrValue::S(String::from_str(uid)),
    )
}

/// Whether the row belongs to the wishlist numbered `list_id`.
pub open spec fn in_list(row: RowModel, list_id: Seq<char>) -> bool {
    lookup(row, "list_id"@) == Some(AttrModel::N(list_id))
}

/// The keys of the plants of the wishlist `list_id` among the rows of the
/// user `uid`, in order, or the error of the first of them without `uuid`.
pub open spec fn listed_keys(rows: Seq<RowModel>, uid: Seq<char>, list_id: Seq<char>) -> Result<
    Seq<RowModel>,
    RowError,
>
    decreases rows.len(),
{
    if rows.len() == 0 {
        Ok(Seq::empty())
    } else {
        match listed_keys(rows.drop_last(), uid, list_id) {
            Err(e) => Err(e),
            Ok(keys) => if !in_list(rows.last(), list_id) {
                Ok(keys)
            } else {
                match lookup(rows.last(), "uuid"@) {
                    None => Err(RowError::MissingField),
                    Some(v) => Ok(keys.push(plant_key(v, uid))),
                }
            },
        }
    }
}

/// What is deleted with a wishlist: every row must have a `list_id`; the
/// plants to delete are those of the list.
pub open spec fn list_deletions(rows: Seq<RowModel>, uid: Seq<char>, list_id: Seq<char>) -> Result<
    Seq<RowModel>,
    RowError,
> {
    if !all_have(rows, "list_id"@) {
        Err(RowError::MissingField)
    } else {
        listed_keys(rows, uid, list_id)
    }
}

/// An error in a prefix is the error of the whole list.
pub proof fn lemma_listed_keys_error_extends(
    rows: Seq<RowModel>,
    uid: Seq<char>,
    list_id: Seq<char>,
    k: int,
)
    requires
        0 <= k <= rows.len(),
        listed_keys(rows.take(k), uid, list_id) is Err,
    ensures
        listed_keys(rows, uid, list_id) == listed_keys(rows.take(k), uid, list_id),
    decreases rows.len() - k,
{
    if k < rows.len() {
        assert(rows.take(k + 1).drop_last() =~= rows.take(k));
        lemma_listed_keys_error_extends(rows, uid, list_id, k + 1);
    } else {
        assert(rows.take(k) =~= rows);
    }
}

/// Whether every row has a field `name`.
fn every_row_has(rows: &Vec<Row>, name: &str) -> (r: bool)
    ensures
        r == all_have(rows_model(rows@), name@),
{
    let ghost model = rows_model(rows@);
    let mut i: usize = 0;
    while i < rows.len()
        invariant
            i <= rows.len(),
            model == rows_model(rows@),
            forall|j: int| 0 <= j < i ==> lookup(#[trigger] model[j], name@) is Some,
        decreases rows.len() - i,
    {
        if rows[i].get(name).is_none() {
            assert(lookup(model[i as int], name@) is None);
            return false;
        }
        i += 1;
    }
    true
}

/// The keys of the rows to delete with the wishlist `list_id` of the user
/// `uid`, from the rows found for that user.
pub fn delete_list_keys(rows: &Vec<Row>, uid: &str, list_id: &str) -> (r: Result<Vec<Row>, RowError>)
    ensures
        match r {
            Ok(keys) => list_deletions(rows_model(rows@), uid@, list_id@) == Ok::<
                Seq<RowModel>,
                RowError,
            >(rows_model(keys@)),
            Err(e) => list_deletions(rows_model(rows@), uid@, list_id@) == Err::<
                Seq<RowModel>,
                RowError,
            >(e),
        },
{
    if !every_row_has(rows, "list_id") {
        return Err(RowError::MissingField);
    }
    let ghost model = rows_model(rows@);
    let mut keys: Vec<Row> = Vec::new();
    let mut i: usize = 0;
    assert(model.take(0) =~= Seq::<RowModel>::empty());
    assert(rows_model(keys@) =~= Seq::<RowModel>::empty());
    while i < rows.len()
        invariant
            i <= rows.len(),
            model == rows_model(rows@),
            listed_keys(model.take(i as int), uid@, list_id@) == Ok::<Seq<RowModel>, RowError>(
                rows_model(keys@),
            ),
        decreases rows.len() - i,
    {
        let ghost before = rows_model(keys@);
        assert(model.take(i as int + 1).drop_last() =~= model.take(i as int));
        assert(model.take(i as int + 1).last() == rows@[i as int]@);
        let listed = match rows[i].get("list_id") {
            Some(v) => v.is_number(list_id),
            None => false,
        };
        if listed {
            match rows[i].get("uuid") {
                None => {
                    proof {
                        lemma_listed_keys_error_extends(model, uid@, list_id@, i as int + 1);
                    }
                    return Err(RowError::MissingField);
                },
                Some(v) => {
                    let key = Row::new().item("uuid", v.clone()).item(
                        "user_id",
                        AttrValue::S(String::from_str(uid)),
                    );
                    keys.push(key);
                    assert(rows_model(keys@) =~= before.push(plant_key(v@, uid@)));
                },
            }
        }
        i += 1;
    }
    assert(model.take(i as int) =~= model);
    Ok(keys)
}

/// The plant in a row: its `uuid` and its `plant_name`, both strings.
pub open spec fn plant_of(row: RowModel) -> Result<PlantModel, RowError> {
    match text_of(row, "uuid"@) {
        Err(e) => Err(e),
        Ok(uuid) => match text_of(row, "plant_name"@) {
            Err(e) => Err(e),
            Ok(name) => Ok(PlantModel { uuid, name }),
        },
    }
}

/// The plants in the rows, or the error of the first row that holds none.
pub open spec fn plants_of(rows: Seq<RowModel>) -> Result<Seq<PlantModel>, RowError>
    decreases rows.len(),
{
    if rows.len() == 0 {
        Ok(Seq::empty())
    } else {
        match plants_of(rows.drop_last()) {
            Err(e) => Err(e),
            Ok(plants) => match plant_of(rows.last()) {
                Err(e) => Err(e),
                Ok(p) => Ok(plants.push(p)),
            },
        }
    }
}

/// The contents of a list of plants.
pub open spec fn plants_model(plants: Seq<Plant>) -> Seq<PlantModel> {
    plants.map_values(|p: Plant| p@)
}

/// An error in a prefix is the error of the whole list.
pub proof fn lemma_plants_error_extends(rows: Seq<RowModel>, k: int)
    requires
        0 <= k <= rows.len(),
        plants_of(rows.take(k)) is Err,
    ensures
        plants_of(rows) == plants_of(rows.take(k)),
    decreases rows.len() - k,
{
    if k < rows.len() {
        assert(rows.take(k + 1).drop_last() =~= rows.take(k));
        lemma_plants_error_extends(rows, k + 1);
    } else {
        assert(rows.take(k) =~= rows);
    }
}

/// Reads the plants of a wishlist from their rows.
pub fn hashmap_to_lists(plants: &Vec<Row>) -> (r: Result<Vec<Plant>, RowError>)
    ensures
        match r {
            Ok(list) => plants_of(rows_model(plants@)) == Ok::<Seq<PlantModel>, RowError>(
                plants_model(list@),
            ),
            Err(e) => plants_of(rows_model(plants@)) == Err::<Seq<PlantModel>, RowError>(e),
        },
{
    let ghost model = rows_model(plants@);
    let mut list: Vec<Plant> = Vec::new();
    let mut i: usize = 0;
    assert(model.take(0) =~= Seq::<RowModel>::empty());
    assert(plants_model(list@) =~= Seq::<PlantModel>::empty());
    while i < plants.len()
        invariant
            i <= plants.len(),
            model == rows_model(plants@),
            plants_of(model.take(i as int)) == Ok::<Seq<PlantModel>, RowError>(plants_model(list@)),
        decreases plants.len() - i,
    {
        let ghost before = plants_model(list@);
        assert(model.take(i as int + 1).drop_last() =~= model.take(i as int));
        assert(model.take(i as int + 1).last() == plants@[i as int]@);
        let uuid = match plants[i].text("uuid") {
            Err(e) => {
                proof {
                    lemma_plants_error_extends(model, i as int + 1);
                }
                return Err(e);
            },
            Ok(uuid) => uuid,
        };
        let name = match plants[i].text("plant_name") {
            Err(e) => {
                proof {
                    lemma_plants_error_extends(model, i as int + 1);
                }
                return Err(e);
            },
            Ok(name) => name,
        };
        list.push(Plant { uuid: String::from_str(uuid), name: String::from_str(name) });
        assert(plants_model(list@) =~= before.push(PlantModel { uuid: uuid@, name: name@ }));
        i += 1;
    }
    assert(model.take(i as int) =~= model);
    Ok(list)
}

/// The JSON text of a plant.
pub open spec fn plant_json(p: PlantModel) -> Seq<char> {
    json_object(
        seq![json_member("uuid"@, json_string(p.uuid)), json_member("name"@, json_string(p.name))],
    )
}

/// The JSON text of a list of plants.
pub open spec fn plants_json(plants: Seq<PlantModel>) -> Seq<char> {
    json_array(plants.map_values(|p: PlantModel| plant_json(p)))
}

/// Writes a list of plants as JSON.
pub fn plants_text(plants: &Vec<Plant>) -> (r: String)
    ensures
        r@ == plants_json(plants_model(plants@)),
{
    let ghost model = plants_model(plants@);
    let mut items: Vec<String> = Vec::new();
    let mut i: usize = 0;
    while i < plants.len()
        invariant
            i <= plants.len(),
            model == plants_model(plants@),
            items@.len() == i,
            forall|j: int| 0 <= j < i ==> (#[trigger] items@[j])@ == plant_json(model[j]),
        decreases plants.len() - i,
    {
        let mut members: Vec<String> = Vec::new();
        members.push(string_member("uuid", plants[i].uuid.as_str()));
        members.push(string_member("name", plants[i].name.as_str()));
        assert(texts(members@) =~= seq![
            json_member("uuid"@, json_string(plants@[i as int].uuid@)),
            json_member("name"@, json_string(plants@[i as int].name@)),
        ]);
        items.push(object(&members));
        i += 1;
    }
    assert(texts(items@) =~= model.map_values(|p: PlantModel| plant_json(p)));
    array(&items)
}

/// The reply that lists the plants found for a user.
pub fn list_reply(rows: &Vec<Row>) -> (r: Result<Reply, RowError>)
    ensures
        match r {
            Ok(reply) => plants_of(rows_model(rows@)) is Ok && reply@ == html_reply(
                200,
                plants_json(plants_of(rows_model(rows@))->Ok_0),
            ),
            Err(e) => plants_of(rows_model(rows@)) == Err::<Seq<PlantModel>, RowError>(e),
        },
{
    match hashmap_to_lists(rows) {
        Err(e) => Err(e),
        Ok(list) => Ok(Reply::html(200, plants_text(&list))),
    }
}

} // verus!
