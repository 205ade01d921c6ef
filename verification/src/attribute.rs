//! Store rows: named fields holding tagged values, with fallible accessors.

use vstd::prelude::*;
use vstd::string::StringExecFns;
use crate::text::same_text;

verus! {

/// A value stored under a field name.
#[derive(Debug, PartialEq, Eq)]
pub enum AttrValue {
    /// A string.
    S(String),
    /// A number, kept in its text encoding.
    N(String),
    /// A boolean.
    Bool(bool),
    /// A value of a kind that nothing here reads (binary, set, list, map, null).
    Other,
}

/// The mathematical content of an [`AttrValue`].
pub enum AttrModel {
    S(Seq<char>),
    N(Seq<char>),
    Bool(bool),
    Other,
}

impl View for AttrValue {
    type V = AttrModel;

    open spec fn view(&self) -> AttrModel {
        match self {
            AttrValue::S(s) => AttrModel::S(s@),
            AttrValue::N(n) => AttrModel::N(n@),
            AttrValue::Bool(b) => AttrModel::Bool(*b),
            AttrValue::Other => AttrModel::Other,
        }
    }
}

/// Why a field of a row could not be read.
#[derive(Debug, PartialEq, Eq, Clone, Copy)]
pub enum RowError {
    /// The row has no field of that name.
    MissingField,
    /// The field holds a value of another kind than the one asked for.
    TypeMismatch,
    /// The field is a number whose text is not a decimal numeral.
    MalformedNumber,
    /// The number, or a sum of such numbers, does not fit the machine representation.
    NumberOutOfRange,
}

impl Clone for AttrValue {
    fn clone(&self) -> (r: AttrValue)
        ensures
            r@ == self@,
    {
        match self {
            AttrValue::S(s) => AttrValue::S(s.clone()),
            AttrValue::N(n) => AttrValue::N(n.clone()),
            AttrValue::Bool(b) => AttrValue::Bool(*b),
            AttrValue::Other => AttrValue::Other,
        }
    }
}

impl AttrValue {
    /// The string held, or `TypeMismatch` for any other kind.
    pub fn as_s(&self) -> (r: Result<&str, RowError>)
        ensures
            match r {
                Ok(s) => self@ == AttrModel::S(s@),
                Err(e) => !(self@ is S) && e == RowError::TypeMismatch,
            },
    {
        match self {
            AttrValue::S(s) => Ok(s.as_str()),
            _ => Err(RowError::TypeMismatch),
        }
    }

    /// The number's text, or `TypeMismatch` for any other kind.
    pub fn as_n(&self) -> (r: Result<&str, RowError>)
        ensures
            match r {
                Ok(s) => self@ == AttrModel::N(s@),
                Err(e) => !(self@ is N) && e == RowError::TypeMismatch,
            },
    {
        match self {
            AttrValue::N(s) => Ok(s.as_str()),
            _ => Err(RowError::TypeMismatch),
        }
    }

    /// The boolean held, or `TypeMismatch` for any other kind.
    pub fn as_bool(&self) -> (r: Result<bool, RowError>)
        ensures
            match r {
                Ok(b) => self@ == AttrModel::Bool(b),
                Err(e) => !(self@ is Bool) && e == RowError::TypeMismatch,
            },
    {
        match self {
            AttrValue::Bool(b) => Ok(*b),
            _ => Err(RowError::TypeMismatch),
        }
    }

    /// Whether the value is the boolean `b`.
    pub fn is_bool(&self, b: bool) -> (r: bool)
        ensures
            r == (self@ == AttrModel::Bool(b)),
    {
        match self {
            AttrValue::Bool(x) => *x == b,
            _ => false,
        }
    }

    /// Whether the value is the number written `text`.
    pub fn is_number(&self, text: &str) -> (r: bool)
        ensures
            r == (self@ == AttrModel::N(text@)),
    {
        match self {
            AttrValue::N(x) => same_text(x.as_str(), text),
            _ => false,
        }
    }
}

/// One field of a row.
#[derive(Debug, PartialEq, Eq)]
pub struct Field {
    pub name: String,
    pub value: AttrValue,
}

/// A row of a table: its fields. A row built from [`Row::new`] by
/// [`Row::item`] holds each name at most once; a lookup finds the first field
/// of the name.
#[derive(Debug, PartialEq, Eq)]
pub struct Row {
    pub fields: Vec<Field>,
}

/// The mathematical content of a [`Row`]: names and values in order.
pub type RowModel = Seq<(Seq<char>, AttrModel)>;

impl View for Row {
    type V = Seq<(Seq<char>, AttrModel)>;

    open spec fn view(&self) -> Seq<(Seq<char>, AttrModel)> {
        Seq::new(self.fields@.len(), |i: int| (self.fields@[i].name@, self.fields@[i].value@))
    }
}

/// The contents of a list of rows.
pub open spec fn rows_model(rows: Seq<Row>) -> Seq<RowModel> {
    rows.map_values(|r: Row| r@)
}

/// The value of the first field called `name`, if there is one.
pub open spec fn lookup(row: RowModel, name: Seq<char>) -> Option<AttrModel>
    decreases row.len(),
{
    if row.len() == 0 {
        None
    } else if row[0].0 == name {
        Some(row[0].1)
    } else {
        lookup(row.drop_first(), name)
    }
}

/// Whether every row has a field `name`.
pub open spec fn all_have(rows: Seq<RowModel>, name: Seq<char>) -> bool {
    forall|i: int| 0 <= i < rows.len() ==> lookup(#[trigger] rows[i], name) is Some
}

/// The row with `name` set to `value`: in place where the name is present,
/// at the end where it is not.
pub open spec fn upsert(row: RowModel, name: Seq<char>, value: AttrModel) -> RowModel
    decreases row.len(),
{
    if row.len() == 0 {
        seq![(name, value)]
    } else if row[0].0 == name {
        seq![(name, value)] + row.drop_first()
    } else {
        seq![row[0]] + upsert(row.drop_first(), name, value)
    }
}

/// The text of the string field `name`.
pub open spec fn text_of(row: RowModel, name: Seq<char>) -> Result<Seq<char>, RowError> {
    match lookup(row, name) {
        None => Err(RowError::MissingField),
        Some(AttrModel::S(s)) => Ok(s),
        Some(_) => Err(RowError::TypeMismatch),
    }
}

/// The text of the number field `name`.
pub open spec fn number_of(row: RowModel, name: Seq<char>) -> Result<Seq<char>, RowError> {
    match lookup(row, name) {
        None => Err(RowError::MissingField),
        Some(AttrModel::N(s)) => Ok(s),
        Some(_) => Err(RowError::TypeMismatch),
    }
}

/// The value of the boolean field `name`.
pub open spec fn flag_of(row: RowModel, name: Seq<char>) -> Result<bool, RowError> {
    match lookup(row, name) {
        None => Err(RowError::MissingField),
        Some(AttrModel::Bool(b)) => Ok(b),
        Some(_) => Err(RowError::TypeMismatch),
    }
}

/// Why the string field `name` cannot be read, if it cannot.
pub open spec fn text_error(row: RowModel, name: Seq<char>) -> Option<RowError> {
    match text_of(row, name) {
        Err(e) => Some(e),
        Ok(_) => None,
    }
}

/// Why the number field `name` cannot be read, if it cannot.
pub open spec fn number_error(row: RowModel, name: Seq<char>) -> Option<RowError> {
    match number_of(row, name) {
        Err(e) => Some(e),
        Ok(_) => None,
    }
}

/// Why the boolean field `name` cannot be read, if it cannot.
pub open spec fn flag_error(row: RowModel, name: Seq<char>) -> Option<RowError> {
    match flag_of(row, name) {
        Err(e) => Some(e),
        Ok(_) => None,
    }
}

/// The first error in a list of outcomes, if there is one.
pub open spec fn first_error(outcomes: Seq<Option<RowError>>) -> Option<RowError>
    decreases outcomes.len(),
{
    if outcomes.len() == 0 {
        None
    } else if outcomes[0] is Some {
        outcomes[0]
    } else {
        first_error(outcomes.drop_first())
    }
}

/// The first error is the one at `k` where nothing before `k` is an error.
pub proof fn lemma_first_error_at(outcomes: Seq<Option<RowError>>, k: int)
    requires
        0 <= k < outcomes.len(),
        outcomes[k] is Some,
        forall|j: int| 0 <= j < k ==> (#[trigger] outcomes[j]) is None,
    ensures
        first_error(outcomes) == outcomes[k],
    decreases k,
{
    if k > 0 {
        let rest = outcomes.drop_first();
        assert(outcomes[0] is None);
        assert forall|j: int| 0 <= j < k - 1 implies (#[trigger] rest[j]) is None by {
            assert(rest[j] == outcomes[j + 1]);
        }
        lemma_first_error_at(rest, k - 1);
    }
}

/// There is no first error where nothing is an error.
pub proof fn lemma_no_error(outcomes: Seq<Option<RowError>>)
    requires
        forall|j: int| 0 <= j < outcomes.len() ==> (#[trigger] outcomes[j]) is None,
    ensures
        first_error(outcomes) is None,
    decreases outcomes.len(),
{
    if outcomes.len() > 0 {
        let rest = outcomes.drop_first();
        assert(outcomes[0] is None);
        assert forall|j: int| 0 <= j < rest.len() implies (#[trigger] rest[j]) is None by {
            assert(rest[j] == outcomes[j + 1]);
        }
        lemma_no_error(rest);
    }
}

/// A lookup that skips a prefix without the name finds what the whole row holds.
pub proof fn lemma_lookup_skip(row: RowModel, name: Seq<char>, i: int)
    requires
        0 <= i <= row.len(),
        forall|j: int| 0 <= j < i ==> (#[trigger] row[j]).0 != name,
    ensures
        lookup(row, name) == lookup(row.skip(i), name),
    decreases i,
{
    if i == 0 {
        assert(row.skip(0) =~= row);
    } else {
        assert(row.drop_first().skip(i - 1) =~= row.skip(i));
        assert forall|j: int| 0 <= j < i - 1 implies (#[trigger] row.drop_first()[j]).0 != name by {
            assert(row.drop_first()[j] == row[j + 1]);
        }
        lemma_lookup_skip(row.drop_first(), name, i - 1);
    }
}

/// Setting a field where the name first occurs at `i` updates that place.
pub proof fn lemma_upsert_at(row: RowModel, name: Seq<char>, value: AttrModel, i: int)
    requires
        0 <= i < row.len(),
        row[i].0 == name,
        forall|j: int| 0 <= j < i ==> (#[trigger] row[j]).0 != name,
    ensures
        upsert(row, name, value) == row.update(i, (name, value)),
    decreases i,
{
    if i == 0 {
        assert(seq![(name, value)] + row.drop_first() =~= row.update(0, (name, value)));
    } else {
        let rest = row.drop_first();
        assert forall|j: int| 0 <= j < i - 1 implies (#[trigger] rest[j]).0 != name by {
            assert(rest[j] == row[j + 1]);
        }
        lemma_upsert_at(rest, name, value, i - 1);
        assert(seq![row[0]] + rest.update(i - 1, (name, value)) =~= row.update(i, (name, value)));
    }
}

/// Setting a field whose name is absent appends it.
pub proof fn lemma_upsert_absent(row: RowModel, name: Seq<char>, value: AttrModel)
    requires
        forall|j: int| 0 <= j < row.len() ==> (#[trigger] row[j]).0 != name,
    ensures
        upsert(row, name, value) == row.push((name, value)),
    decreases row.len(),
{
    if row.len() == 0 {
        assert(seq![(name, value)] =~= row.push((name, value)));
    } else {
        let rest = row.drop_first();
        assert forall|j: int| 0 <= j < rest.len() implies (#[trigger] rest[j]).0 != name by {
            assert(rest[j] == row[j + 1]);
        }
        lemma_upsert_absent(rest, name, value);
        assert(seq![row[0]] + rest.push((name, value)) =~= row.push((name, value)));
    }
}

/// After a field is set, a lookup of its name finds the new value and a
/// lookup of any other name finds what it found before.
pub proof fn lemma_lookup_upsert(row: RowModel, name: Seq<char>, value: AttrModel, other: Seq<char>)
    ensures
        lookup(upsert(row, name, value), other) == if other == name {
            Some(value)
        } else {
            lookup(row, other)
        },
    decreases row.len(),
{
    let after = upsert(row, name, value);
    if row.len() == 0 {
        assert(after[0] == (name, value));
        assert(after.drop_first() =~= Seq::<(Seq<char>, AttrModel)>::empty());
        assert(lookup(after.drop_first(), other) is None);
    } else if row[0].0 == name {
        assert(after[0] == (name, value));
        assert(after.drop_first() =~= row.drop_first());
    } else {
        lemma_lookup_upsert(row.drop_first(), name, value, other);
        assert(after[0] == row[0]);
        assert(after.drop_first() =~= upsert(row.drop_first(), name, value));
    }
}

/// Whether no name occurs twice among the fields.
pub open spec fn has_distinct_names(row: RowModel) -> bool {
    forall|i: int, j: int| 0 <= i < j < row.len() ==> (#[trigger] row[i]).0 != (#[trigger] row[j]).0
}

/// Setting a field keeps the names distinct.
pub proof fn lemma_upsert_keeps_names_distinct(row: RowModel, name: Seq<char>, value: AttrModel)
    requires
        has_distinct_names(row),
    ensures
        has_distinct_names(upsert(row, name, value)),
{
    let after = upsert(row, name, value);
    if exists|i: int| 0 <= i < row.len() && (#[trigger] row[i]).0 == name {
        let i = choose|i: int| 0 <= i < row.len() && (#[trigger] row[i]).0 == name;
        assert forall|j: int| 0 <= j < i implies (#[trigger] row[j]).0 != name by {
            assert(row[j].0 != row[i].0);
        }
        lemma_upsert_at(row, name, value, i);
        assert forall|a: int, b: int| 0 <= a < b < after.len() implies (#[trigger] after[a]).0 != (
        #[trigger] after[b]).0 by {
            assert(after[a].0 == row[a].0);
            assert(after[b].0 == row[b].0);
        }
    } else {
        assert forall|j: int| 0 <= j < row.len() implies (#[trigger] row[j]).0 != name by {}
        lemma_upsert_absent(row, name, value);
        assert forall|a: int, b: int| 0 <= a < b < after.len() implies (#[trigger] after[a]).0 != (
        #[trigger] after[b]).0 by {
            if b < row.len() {
                assert(after[a] == row[a]);
                assert(after[b] == row[b]);
            } else {
                assert(after[a] == row[a]);
            }
        }
    }
}

impl Row {
    /// The row without fields.
    pub fn new() -> (r: Row)
        ensures
            r@ == Seq::<(Seq<char>, AttrModel)>::empty(),
            has_distinct_names(r@),
    {
        let r = Row { fields: Vec::new() };
        assert(r@ =~= Seq::<(Seq<char>, AttrModel)>::empty());
        r
    }

    /// The number of fields.
    pub fn len(&self) -> (n: usize)
        ensures
            n == self@.len(),
    {
        self.fields.len()
    }

    /// The place of the first field called `name`.
    fn find(&self, name: &str) -> (r: Option<usize>)
        ensures
            match r {
                Some(i) => i < self@.len() && self@[i as int].0 == name@ && forall|j: int|
                    0 <= j < i ==> (#[trigger] self@[j]).0 != name@,
                None => forall|j: int| 0 <= j < self@.len() ==> (#[trigger] self@[j]).0 != name@,
            },
    {
        let mut i: usize = 0;
        while i < self.fields.len()
            invariant
                i <= self.fields.len(),
                forall|j: int| 0 <= j < i ==> (#[trigger] self@[j]).0 != name@,
            decreases self.fields.len() - i,
        {
            if same_text(self.fields[i].name.as_str(), name) {
                return Some(i);
            }
            i += 1;
        }
        None
    }

    /// Sets the field `name` to `value`, replacing a field of that name.
    pub fn item(self, name: &str, value: AttrValue) -> (r: Row)
        ensures
            r@ == upsert(self@, name@, value@),
            has_distinct_names(self@) ==> has_distinct_names(r@),
    {
        let mut row = self;
        let ghost before = row@;
        let ghost v = value@;
        proof {
            if has_distinct_names(before) {
                lemma_upsert_keeps_names_distinct(before, name@, v);
            }
        }
        let field = Field { name: String::from_str(name), value };
        match row.find(name) {
            Some(i) => {
                row.fields.set(i, field);
                proof {
                    lemma_upsert_at(before, name@, v, i as int);
                    assert(row@ =~= before.update(i as int, (name@, v)));
                }
            },
            None => {
                row.fields.push(field);
                proof {
                    lemma_upsert_absent(before, name@, v);
                    assert(row@ =~= before.push((name@, v)));
                }
            },
        }
        row
    }

    /// The value of the first field called `name`.
    pub fn get(&self, name: &str) -> (r: Option<&AttrValue>)
        ensures
            match r {
                Some(v) => lookup(self@, name@) == Some(v@),
                None => lookup(self@, name@) is None,
            },
    {
        match self.find(name) {
            Some(i) => {
                proof {
                    lemma_lookup_skip(self@, name@, i as int);
                }
                Some(&self.fields[i].value)
            },
            None => {
                proof {
                    lemma_lookup_skip(self@, name@, self@.len() as int);
                }
                None
            },
        }
    }

    /// The string under `name`; `MissingField` where there is no such field,
    /// `TypeMismatch` where it holds another kind.
    pub fn text(&self, name: &str) -> (r: Result<&str, RowError>)
        ensures
            match r {
                Ok(s) => text_of(self@, name@) == Ok::<Seq<char>, RowError>(s@),
                Err(e) => text_of(self@, name@) == Err::<Seq<char>, RowError>(e),
            },
    {
        match self.get(name) {
            None => Err(RowError::MissingField),
            Some(v) => v.as_s(),
        }
    }

    /// The number text under `name`; `MissingField` where there is no such
    /// field, `TypeMismatch` where it holds another kind.
    pub fn number(&self, name: &str) -> (r: Result<&str, RowError>)
        ensures
            match r {
                Ok(s) => number_of(self@, name@) == Ok::<Seq<char>, RowError>(s@),
                Err(e) => number_of(self@, name@) == Err::<Seq<char>, RowError>(e),
            },
    {
        match self.get(name) {
            None => Err(RowError::MissingField),
            Some(v) => v.as_n(),
        }
    }

    /// The boolean under `name`; `MissingField` where there is no such field,
    /// `TypeMismatch` where it holds another kind.
    pub fn flag(&self, name: &str) -> (r: Result<bool, RowError>)
        ensures
            r == flag_of(self@, name@),
    {
        match self.get(name) {
            None => Err(RowError::MissingField),
            Some(v) => v.as_bool(),
        }
    }
}

impl Clone for Row {
    fn clone(&self) -> (r: Row)
        ensures
            r@ == self@,
    {
        let mut fields: Vec<Field> = Vec::new();
        let mut i: usize = 0;
        while i < self.fields.len()
            invariant
                i <= self.fields.len(),
                fields@.len() == i,
                forall|j: int| 0 <= j < i ==> (#[trigger] fields@[j]).name@ == self.fields@[j].name@
                    && fields@[j].value@ == self.fields@[j].value@,
            decreases self.fields.len() - i,
        {
            fields.push(Field { name: self.fields[i].name.clone(), value: self.fields[i].value.clone() });
            i += 1;
        }
        let r = Row { fields };
        assert(r@ =~= self@);
        r
    }
}

} // verus!
