//! Statements under construction, and the rows that a statement returns.

use crate::database::value::{
    optional_text_in, or_default, text_in, value_views, Value, ValueView, Values,
};
use crate::util::Timestamp;
use crate::error::Error;
use crate::text::{join, join_texts, texts_of};
use vstd::prelude::*;
use vstd::std_specs::convert::FromSpecImpl;
use vstd::string::StringExecFns;

verus! {

/// A statement under construction: pieces of text, the separator that will
/// stand between them, and the values bound to its placeholders.
#[derive(Debug)]
pub struct Query {
    pub(crate) stmt: Vec<String>,
    pub(crate) args: Values,
    pub(crate) sep: String,
}

/// What a statement under construction holds.
pub struct QueryView {
    /// The pieces of text, in order.
    pub stmt: Seq<Seq<char>>,
    /// The values bound, in order.
    pub args: Seq<ValueView>,
    /// The separator between two pieces.
    pub sep: Seq<char>,
}

impl QueryView {
    /// The text of the statement: the pieces with the separator between
    /// neighbours.
    pub open spec fn text(self) -> Seq<char> {
        join(self.stmt, self.sep)
    }

    /// The statement with one more piece of text.
    pub open spec fn with_piece(self, piece: Seq<char>) -> QueryView {
        QueryView { stmt: self.stmt.push(piece), args: self.args, sep: self.sep }
    }

    /// The statement with one more value bound.
    pub open spec fn with_value(self, value: ValueView) -> QueryView {
        QueryView { stmt: self.stmt, args: self.args.push(value), sep: self.sep }
    }

    /// The statement with another separator.
    pub open spec fn with_separator(self, sep: Seq<char>) -> QueryView {
        QueryView { stmt: self.stmt, args: self.args, sep }
    }

    /// The statement with the whole text of `other` as one more piece, and
    /// the values of `other` bound behind its own.
    pub open spec fn with_query(self, other: QueryView) -> QueryView {
        QueryView {
            stmt: self.stmt.push(other.text()),
            args: self.args + other.args,
            sep: self.sep,
        }
    }

    /// Whether the statement holds neither text nor values.
    pub open spec fn is_empty(self) -> bool {
        self.stmt.len() == 0 && self.args.len() == 0
    }
}

/// The statement that holds nothing.
pub open spec fn empty_query() -> QueryView {
    QueryView { stmt: Seq::empty(), args: Seq::empty(), sep: Seq::empty() }
}

impl View for Query {
    type V = QueryView;

    closed spec fn view(&self) -> QueryView {
        QueryView { stmt: texts_of(self.stmt@), args: self.args@, sep: self.sep@ }
    }
}

impl Query {
    /// A statement without text, values or separator.
    pub fn new() -> (query: Query)
        ensures
            query@ == empty_query(),
    {
        let query = Query { stmt: Vec::new(), args: Values(Vec::new()), sep: String::new() };
        proof {
            assert(query@.stmt =~= Seq::<Seq<char>>::empty());
            assert(query@.args =~= Seq::<ValueView>::empty());
        }
        query
    }

    /// Sets the separator that will stand between the pieces of text.
    pub fn set_separator(&mut self, sep: &str)
        ensures
            final(self)@ == old(self)@.with_separator(sep@),
    {
        self.sep = String::from_str(sep);
    }

    /// Adds the text of `other` as one piece, and its values behind the
    /// values bound so far.
    pub fn append(&mut self, other: Query) -> (this: &mut Query)
        ensures
            *final(self) == *final(this),
            this@ == old(self)@.with_query(other@),
    {
        let (stmt, mut values) = other.build();
        proof {
            assert(texts_of(self.stmt@.push(stmt)) == texts_of(self.stmt@).push(stmt@));
        }
        self.stmt.push(stmt);
        self.args.append(&mut values);
        self
    }

    /// Adds one piece of text.
    pub fn push_str(&mut self, stmt: &str) -> (this: &mut Query)
        ensures
            *final(self) == *final(this),
            this@ == old(self)@.with_piece(stmt@),
    {
        let piece = String::from_str(stmt);
        proof {
            assert(texts_of(self.stmt@.push(piece)) == texts_of(self.stmt@).push(piece@));
        }
        self.stmt.push(piece);
        self
    }

    /// Binds one value.
    pub fn bind(&mut self, value: Value) -> (this: &mut Query)
        ensures
            *final(self) == *final(this),
            this@ == old(self)@.with_value(value@),
    {
        self.args.push(value);
        self
    }

    /// The text of the statement and the values bound to it.
    pub fn build(self) -> (built: (String, Values))
        ensures
            built.0@ == self@.text(),
            built.1@ == self@.args,
    {
        (join_texts(&self.stmt, self.sep.as_str()), self.args)
    }

    /// Whether the statement holds neither text nor values.
    pub fn is_empty(&self) -> (empty: bool)
        ensures
            empty == self@.is_empty(),
    {
        self.stmt.len() == 0 && self.args.0.len() == 0
    }
}

/// One column of a row: its name and its value.
#[derive(Debug, Clone, PartialEq, Eq)]
pub struct Column(pub String, pub Value);

/// What a column holds: its name, then its value.
pub type ColumnView = (Seq<char>, ValueView);

impl View for Column {
    type V = ColumnView;

    open spec fn view(&self) -> ColumnView {
        (self.0@, self.1@)
    }
}

impl Column {
    /// A copy of this column.
    pub fn duplicate(&self) -> (copy: Column)
        ensures
            copy@ == self@,
    {
        Column(self.0.clone(), self.1.duplicate())
    }
}

/// A row that a statement returned: its columns in order.
#[derive(Debug, Clone, PartialEq, Eq)]
pub struct Row {
    pub columns: Vec<Column>,
}

/// The views of a sequence of columns.
pub open spec fn column_views(columns: Seq<Column>) -> Seq<ColumnView> {
    columns.map_values(|column: Column| column@)
}

impl View for Row {
    type V = Seq<ColumnView>;

    open spec fn view(&self) -> Seq<ColumnView> {
        column_views(self.columns@)
    }
}

/// What selects a column of a row: its position or its name.
#[derive(Debug, Clone, PartialEq, Eq)]
pub enum ColumnIndex {
    Int(usize),
    Str(String),
}

/// What a column selector holds.
pub enum ColumnIndexView {
    Int(usize),
    Str(Seq<char>),
}

impl View for ColumnIndex {
    type V = ColumnIndexView;

    open spec fn view(&self) -> ColumnIndexView {
        match *self {
            ColumnIndex::Int(i) => ColumnIndexView::Int(i),
            ColumnIndex::Str(s) => ColumnIndexView::Str(s@),
        }
    }
}

/// Index of the first column named `name`, or the number of columns where
/// there is none.
pub open spec fn named_position(columns: Seq<ColumnView>, name: Seq<char>) -> int
    decreases columns.len(),
{
    if columns.len() == 0 {
        0
    } else {
        let before = named_position(columns.drop_last(), name);
        if before < columns.len() - 1 {
            before
        } else if columns.last().0 == name {
            columns.len() - 1
        } else {
            columns.len() as int
        }
    }
}

/// The column that `index` selects: the column at the position, or the first
/// column of the name. `None` where the position is out of range or no
/// column has the name.
pub open spec fn selected(columns: Seq<ColumnView>, index: ColumnIndexView) -> Option<ColumnView> {
    match index {
        ColumnIndexView::Int(i) => if i < columns.len() {
            Some(columns[i as int])
        } else {
            None
        },
        ColumnIndexView::Str(name) => if named_position(columns, name) < columns.len() {
            Some(columns[named_position(columns, name)])
        } else {
            None
        },
    }
}

/// The value of the column named `name`, where there is one.
pub open spec fn value_named(columns: Seq<ColumnView>, name: Seq<char>) -> Option<ValueView> {
    match selected(columns, ColumnIndexView::Str(name)) {
        Some(column) => Some(column.1),
        None => None,
    }
}

/// What `named_position` finds: an index within bounds or the number of
/// columns, the name at the index, and no such name before it.
pub proof fn lemma_named_position(columns: Seq<ColumnView>, name: Seq<char>)
    ensures
        0 <= named_position(columns, name) <= columns.len(),
        named_position(columns, name) < columns.len() ==> columns[named_position(
            columns,
            name,
        )].0 == name,
        forall|i: int| 0 <= i < named_position(columns, name) ==> (#[trigger] columns[i]).0 != name,
    decreases columns.len(),
{
    if columns.len() > 0 {
        let before = columns.drop_last();
        lemma_named_position(before, name);
        assert forall|i: int| 0 <= i < named_position(columns, name) implies (
        #[trigger] columns[i]).0 != name by {
            if i < before.len() {
                assert(columns[i] == before[i]);
            }
        }
    }
}

/// An index that holds the name, with no such name before it, is what
/// `named_position` finds.
pub proof fn lemma_named_position_is(columns: Seq<ColumnView>, name: Seq<char>, at: int)
    requires
        0 <= at <= columns.len(),
        at < columns.len() ==> columns[at].0 == name,
        forall|i: int| 0 <= i < at ==> (#[trigger] columns[i]).0 != name,
    ensures
        named_position(columns, name) == at,
{
    lemma_named_position(columns, name);
}

/// The view of an optional column.
pub open spec fn column_of(column: Option<Column>) -> Option<ColumnView> {
    match column {
        Some(c) => Some(c@),
        None => None,
    }
}

impl ColumnIndex {
    /// The column of `row` that this selector selects, where there is one.
    pub fn column_index(self, row: &Row) -> (column: Option<Column>)
        ensures
            column_of(column) == selected(row@, self@),
    {
        let ghost selector = self@;
        match self {
            ColumnIndex::Str(name) => {
                let ghost columns = row@;
                let mut at: usize = 0;
                while at < row.columns.len()
                    invariant
                        at <= row.columns.len(),
                        columns == row@,
                        selector == ColumnIndexView::Str(name@),
                        selector == self@,
                        forall|i: int| 0 <= i < at ==> (#[trigger] columns[i]).0 != name@,
                    decreases row.columns.len() - at,
                {
                    proof {
                        assert(columns[at as int] == row.columns@[at as int]@);
                    }
                    if row.columns[at].0 == name {
                        proof {
                            lemma_named_position_is(columns, name@, at as int);
                        }
                        return Some(row.columns[at].duplicate());
                    }
                    at = at + 1;
                }
                proof {
                    lemma_named_position_is(columns, name@, row.columns.len() as int);
                }
                None
            },
            ColumnIndex::Int(i) => {
                if i < row.columns.len() {
                    Some(row.columns[i].duplicate())
                } else {
                    None
                }
            },
        }
    }
}

impl From<usize> for ColumnIndex {
    fn from(index: usize) -> (made: ColumnIndex) {
        ColumnIndex::Int(index)
    }
}

impl FromSpecImpl<usize> for ColumnIndex {
    open spec fn obeys_from_spec() -> bool {
        true
    }

    open spec fn from_spec(index: usize) -> ColumnIndex {
        ColumnIndex::Int(index)
    }
}

impl From<String> for ColumnIndex {
    fn from(name: String) -> (made: ColumnIndex) {
        ColumnIndex::Str(name)
    }
}

impl FromSpecImpl<String> for ColumnIndex {
    open spec fn obeys_from_spec() -> bool {
        true
    }

    open spec fn from_spec(name: String) -> ColumnIndex {
        ColumnIndex::Str(name)
    }
}

impl<'a> From<&'a str> for ColumnIndex {
    fn from(name: &'a str) -> (made: ColumnIndex)
        ensures
            made@ == ColumnIndexView::Str(name@),
    {
        ColumnIndex::Str(String::from_str(name))
    }
}

impl<'a> FromSpecImpl<&'a str> for ColumnIndex {
    open spec fn obeys_from_spec() -> bool {
        false
    }

    open spec fn from_spec(name: &'a str) -> ColumnIndex {
        arbitrary()
    }
}

/// The name of an optional column.
pub open spec fn name_in(column: Option<ColumnView>) -> Result<Seq<char>, ()> {
    match column {
        Some(c) => Ok(c.0),
        None => Err(()),
    }
}

/// The value of an optional column.
pub open spec fn value_in(column: Option<ColumnView>) -> Result<ValueView, ()> {
    match column {
        Some(c) => Ok(c.1),
        None => Err(()),
    }
}

/// The text of a result, where it is one.
pub open spec fn name_made(made: Result<String, ()>) -> Result<Seq<char>, ()> {
    match made {
        Ok(s) => Ok(s@),
        Err(e) => Err(e),
    }
}

/// The view of the value of a result, where it is one.
pub open spec fn value_made(made: Result<Value, ()>) -> Result<ValueView, ()> {
    match made {
        Ok(v) => Ok(v@),
        Err(e) => Err(e),
    }
}

impl Row {
    /// The number of columns.
    pub fn len(&self) -> (count: usize)
        ensures
            count == self@.len(),
    {
        self.columns.len()
    }

    /// The name of the column that `index` selects. Fails where it selects
    /// none.
    pub fn column_name(&self, index: ColumnIndex) -> (name: Result<String, ()>)
        ensures
            name_made(name) == name_in(selected(self@, index@)),
    {
        match index.column_index(self) {
            Some(c) => Ok(c.0),
            None => Err(()),
        }
    }

    /// The value of the column that `index` selects. Fails where it selects
    /// none.
    pub fn try_get(&self, index: ColumnIndex) -> (value: Result<Value, ()>)
        ensures
            value_made(value) == value_in(selected(self@, index@)),
    {
        match index.column_index(self) {
            Some(c) => Ok(c.1),
            None => Err(()),
        }
    }

    /// The value of the column named `name`. Fails where the row has no
    /// column of that name.
    pub fn get(&self, name: &str) -> (value: Result<Value, Error>)
        ensures
            match value {
                Ok(v) => value_named(self@, name@) == Some(v@),
                Err(e) => e == Error::DecodeFailure && value_named(self@, name@) is None,
            },
    {
        match self.try_get(ColumnIndex::Str(String::from_str(name))) {
            Ok(v) => Ok(v),
            Err(_) => Err(Error::DecodeFailure),
        }
    }
}

/// The text of the column named `name`: the empty text where the column is
/// null, a failure where the row has no such column or the column holds no
/// text.
pub open spec fn text_column(row: Seq<ColumnView>, name: Seq<char>) -> Result<Seq<char>, Error> {
    match value_named(row, name) {
        Some(value) => or_default(value.as_text(), Seq::<char>::empty()),
        None => Err(Error::DecodeFailure),
    }
}

/// The text of the column named `name`, which may be null.
pub open spec fn optional_text_column(row: Seq<ColumnView>, name: Seq<char>) -> Result<
    Option<Seq<char>>,
    Error,
> {
    match value_named(row, name) {
        Some(value) => value.as_text(),
        None => Err(Error::DecodeFailure),
    }
}

/// The unsigned integer of the column named `name`, zero where the column is
/// null.
pub open spec fn unsigned_column(row: Seq<ColumnView>, name: Seq<char>) -> Result<u32, Error> {
    match value_named(row, name) {
        Some(value) => or_default(value.as_unsigned(), 0u32),
        None => Err(Error::DecodeFailure),
    }
}

/// The instant of the column named `name`, which may be null.
pub open spec fn optional_instant_column(row: Seq<ColumnView>, name: Seq<char>) -> Result<
    Option<Timestamp>,
    Error,
> {
    match value_named(row, name) {
        Some(value) => value.as_instant(),
        None => Err(Error::DecodeFailure),
    }
}

impl Row {
    /// The text of the column named `name`, the empty text where it is null.
    pub fn text(&self, name: &str) -> (text: Result<String, Error>)
        ensures
            text_in(text) == text_column(self@, name@),
    {
        match self.get(name) {
            Ok(value) => value.to_text(),
            Err(e) => Err(e),
        }
    }

    /// The text of the column named `name`, which may be null.
    pub fn optional_text(&self, name: &str) -> (text: Result<Option<String>, Error>)
        ensures
            optional_text_in(text) == optional_text_column(self@, name@),
    {
        match self.get(name) {
            Ok(value) => value.to_optional_text(),
            Err(e) => Err(e),
        }
    }

    /// The unsigned integer of the column named `name`, zero where it is
    /// null.
    pub fn unsigned(&self, name: &str) -> (unsigned: Result<u32, Error>)
        ensures
            unsigned == unsigned_column(self@, name@),
    {
        match self.get(name) {
            Ok(value) => value.to_unsigned(),
            Err(e) => Err(e),
        }
    }

    /// The instant of the column named `name`, which may be null.
    pub fn optional_instant(&self, name: &str) -> (instant: Result<Option<Timestamp>, Error>)
        ensures
            instant == optional_instant_column(self@, name@),
    {
        match self.get(name) {
            Ok(value) => value.to_optional_instant(),
            Err(e) => Err(e),
        }
    }
}

/// A list of placeholders, one for each of `values`, separated by commas,
/// with the values bound: `?, ?, ?`.
pub open spec fn list_query(values: Seq<ValueView>) -> QueryView {
    QueryView { stmt: Seq::new(values.len(), |i: int| "?"@), args: values, sep: ", "@ }
}

/// A list of placeholders in parentheses, with the values bound:
/// `(?, ?, ?)`.
pub open spec fn group_query(values: Seq<ValueView>) -> QueryView {
    empty_query().with_piece("("@).with_query(list_query(values)).with_piece(")"@)
}

/// The first `count` of `rows` as groups of placeholders, separated by
/// commas, with the values of all of them bound in order:
/// `(?, ?), (?, ?)`.
pub open spec fn groups_query(rows: Seq<Seq<ValueView>>, count: nat) -> QueryView
    recommends
        count <= rows.len(),
    decreases count,
{
    if count == 0 {
        empty_query().with_separator(", "@)
    } else {
        groups_query(rows, (count - 1) as nat).with_query(group_query(rows[count - 1]))
    }
}

/// The views of the values of each of a sequence of rows.
pub open spec fn rows_of(rows: Seq<Vec<Value>>) -> Seq<Seq<ValueView>> {
    rows.map_values(|row: Vec<Value>| value_views(row@))
}

/// A list of placeholders for `values`, with the values bound.
pub fn list_of(values: Vec<Value>) -> (query: Query)
    ensures
        query@ == list_query(value_views(values@)),
{
    let mut query = Query::new();
    query.set_separator(", ");
    let mut i: usize = 0;
    while i < values.len()
        invariant
            i <= values.len(),
            query@.stmt == Seq::new(i as nat, |k: int| "?"@),
            query@.args == Seq::<ValueView>::empty(),
            query@.sep == ", "@,
        decreases values.len() - i,
    {
        query.push_str("?");
        proof {
            assert(query@.stmt =~= Seq::new((i + 1) as nat, |k: int| "?"@));
        }
        i = i + 1;
    }
    proof {
        assert(Seq::<ValueView>::empty() + value_views(values@) == value_views(values@));
    }
    let mut bound = Values(values);
    query.args.append(&mut bound);
    query
}

/// A list of placeholders for `values` in parentheses, with the values
/// bound.
pub fn group_of(values: Vec<Value>) -> (query: Query)
    ensures
        query@ == group_query(value_views(values@)),
{
    let mut query = Query::new();
    query.push_str("(");
    query.append(list_of(values));
    query.push_str(")");
    query
}

/// A copy of each of `values`.
pub fn copy_values(values: &Vec<Value>) -> (copy: Vec<Value>)
    ensures
        value_views(copy@) == value_views(values@),
{
    let mut copy: Vec<Value> = Vec::new();
    let mut i: usize = 0;
    while i < values.len()
        invariant
            i <= values.len(),
            value_views(copy@) == value_views(values@).take(i as int),
        decreases values.len() - i,
    {
        let value = values[i].duplicate();
        proof {
            assert(value_views(copy@.push(value)) == value_views(copy@).push(value@));
            assert(value_views(values@).take(i + 1) == value_views(values@).take(i as int).push(
                value@,
            ));
        }
        copy.push(value);
        i = i + 1;
    }
    proof {
        assert(value_views(values@).take(values.len() as int) == value_views(values@));
    }
    copy
}

/// One group of placeholders for each of `rows`, separated by commas, with
/// all values bound in order.
pub fn groups_of(rows: &Vec<Vec<Value>>) -> (query: Query)
    ensures
        query@ == groups_query(rows_of(rows@), rows@.len()),
{
    let mut query = Query::new();
    query.set_separator(", ");
    let mut done: usize = 0;
    while done < rows.len()
        invariant
            done <= rows.len(),
            query@ == groups_query(rows_of(rows@), done as nat),
        decreases rows.len() - done,
    {
        let row = copy_values(&rows[done]);
        proof {
            assert(rows_of(rows@)[done as int] == value_views(row@));
        }
        query.append(group_of(row));
        done = done + 1;
    }
    query
}

} // verus!
