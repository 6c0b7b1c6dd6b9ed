//! The gateway to the embedded relational store.
//!
//! Every statement that the catalog sends to the store goes through a
//! [`Gateway`], which keeps a ghost record of what was issued. What the store
//! answers is not specified here: the functions of this crate state what they
//! do with every possible answer.

use vstd::prelude::*;

verus! {

#[verifier::external_type_specification]
#[verifier::external_body]
pub struct ExConnection(rusqlite::Connection);

#[verifier::external_type_specification]
#[verifier::external_body]
pub struct ExTransaction<'a>(rusqlite::Transaction<'a>);

#[verifier::external_type_specification]
#[verifier::external_body]
pub struct ExRow<'a>(rusqlite::Row<'a>);

#[verifier::external_type_specification]
#[verifier::external_body]
pub struct ExError(rusqlite::Error);

#[verifier::external_type_specification]
#[verifier::external_body]
pub struct ExValue(rusqlite::types::Value);

#[verifier::external_type_specification]
#[verifier::external_body]
pub struct ExToSqlOutput<'a>(rusqlite::types::ToSqlOutput<'a>);

#[verifier::external_type_specification]
#[verifier::external_body]
pub struct ExPathBuf(std::path::PathBuf);

/// A failure reported by the store, reduced to its message.
#[derive(Debug)]
pub struct StoreError {
    pub message: String,
}

/// A value handed to the store as a statement parameter.
#[derive(Debug)]
pub enum SqlArg {
    Integer(i64),
    Text(String),
    /// A real number, carried as the store's own value.
    Real(rusqlite::types::Value),
    /// A set of row ids, for a membership test.
    Ids(Vec<i64>),
}

pub enum SqlArgView {
    Integer(i64),
    Text(Seq<char>),
    Real(rusqlite::types::Value),
    Ids(Seq<i64>),
}

impl View for SqlArg {
    type V = SqlArgView;

    open spec fn view(&self) -> SqlArgView {
        match *self {
            SqlArg::Integer(i) => SqlArgView::Integer(i),
            SqlArg::Text(s) => SqlArgView::Text(s@),
            SqlArg::Real(v) => SqlArgView::Real(v),
            SqlArg::Ids(ids) => SqlArgView::Ids(ids@),
        }
    }
}

impl DeepView for SqlArg {
    type V = SqlArgView;

    open spec fn deep_view(&self) -> SqlArgView {
        self@
    }
}

/// The type that a column of a result row is read as.
#[derive(Clone, Copy, Debug, PartialEq, Eq, Structural)]
pub enum Kind {
    Integer,
    Text,
    Real,
    Blob,
}

/// A value read from a column of a result row.
#[derive(Debug)]
pub enum SqlValue {
    Integer(i64),
    Text(String),
    /// A real number, carried as the store's own value.
    Real(rusqlite::types::Value),
    Blob(Vec<u8>),
}

pub enum SqlValueView {
    Integer(i64),
    Text(Seq<char>),
    Real(rusqlite::types::Value),
    Blob(Seq<u8>),
}

impl View for SqlValue {
    type V = SqlValueView;

    open spec fn view(&self) -> SqlValueView {
        match *self {
            SqlValue::Integer(i) => SqlValueView::Integer(i),
            SqlValue::Text(s) => SqlValueView::Text(s@),
            SqlValue::Real(v) => SqlValueView::Real(v),
            SqlValue::Blob(bytes) => SqlValueView::Blob(bytes@),
        }
    }
}

impl DeepView for SqlValue {
    type V = SqlValueView;

    open spec fn deep_view(&self) -> SqlValueView {
        self@
    }
}

impl SqlValueView {
    /// The kind of the value.
    pub open spec fn kind(self) -> Kind {
        match self {
            SqlValueView::Integer(_) => Kind::Integer,
            SqlValueView::Text(_) => Kind::Text,
            SqlValueView::Real(_) => Kind::Real,
            SqlValueView::Blob(_) => Kind::Blob,
        }
    }

    /// The number that an integer value holds.
    pub open spec fn integer(self) -> i64 {
        match self {
            SqlValueView::Integer(i) => i,
            _ => 0,
        }
    }

    /// The number that a real value holds.
    pub open spec fn number(self) -> rusqlite::types::Value {
        match self {
            SqlValueView::Real(v) => v,
            _ => arbitrary(),
        }
    }

    /// The bytes that a blob holds.
    pub open spec fn bytes(self) -> Seq<u8> {
        match self {
            SqlValueView::Blob(bytes) => bytes,
            _ => Seq::empty(),
        }
    }

    /// The text that a text value holds.
    pub open spec fn text(self) -> Seq<char> {
        match self {
            SqlValueView::Text(s) => s,
            _ => Seq::empty(),
        }
    }
}

/// A row holds one value for each entry of `shape`, of that entry's kind.
pub open spec fn fits(row: Seq<SqlValueView>, shape: Seq<Kind>) -> bool {
    &&& row.len() == shape.len()
    &&& forall|i: int| 0 <= i < row.len() ==> (#[trigger] row[i]).kind() == shape[i]
}

/// Every row fits `shape`.
pub open spec fn all_fit(rows: Seq<Seq<SqlValueView>>, shape: Seq<Kind>) -> bool {
    forall|i: int| 0 <= i < rows.len() ==> fits(#[trigger] rows[i], shape)
}

/// What the store answered to a statement.
pub enum Reply {
    /// To an insert: the number of rows that the store reported as changed,
    /// or nothing where it reported an error, and the id that the store gave
    /// for its latest row, which is asked for only where a row was changed.
    Row(Option<usize>, Option<i64>),
    /// To another change: the number of rows changed, or nothing where the
    /// store reported an error.
    Changed(Option<usize>),
    /// To a query: the rows read, or nothing where the store reported an
    /// error or a row could not be read.
    Rows(Option<Seq<Seq<SqlValueView>>>),
    /// To a batch: whether the store ran it without an error.
    Batch(bool),
    /// To the beginning of a transaction: whether the store began it.
    Begun(bool),
    /// To the commit of a transaction: whether the store committed it.
    Committed(bool),
}

/// A statement as it was handed to the store, with the store's answer.
pub struct Issued {
    pub sql: Seq<char>,
    pub args: Seq<SqlArgView>,
    pub reply: Reply,
}

/// Whether `entry` is the insert with the given text and parameters.
pub open spec fn is_insert(entry: Issued, sql: Seq<char>, args: Seq<SqlArgView>) -> bool {
    entry.sql == sql && entry.args == args && entry.reply is Row
}

/// Whether a statement that reported `changed` added a row: the store
/// reported no error, and at least one row as changed.
pub open spec fn takes(changed: Option<usize>) -> bool {
    changed matches Some(n) && n > 0
}

/// Whether the store took the row of an insert.
pub open spec fn took(entry: Issued) -> bool {
    entry.reply matches Reply::Row(changed, _) && takes(changed)
}

/// The id of the row that an insert added, if it added one.
pub open spec fn row_of(entry: Issued) -> Option<i64> {
    match entry.reply {
        Reply::Row(changed, id) => if takes(changed) {
            id
        } else {
            None
        },
        _ => None,
    }
}

/// `after` is `before` and then one insert with the given text and
/// parameters.
pub open spec fn inserted(
    before: Seq<Issued>,
    after: Seq<Issued>,
    sql: Seq<char>,
    args: Seq<SqlArgView>,
) -> bool {
    &&& after.len() == before.len() + 1
    &&& after.drop_last() == before
    &&& is_insert(after.last(), sql, args)
}

/// The statements of `after` that follow those of `before`.
pub open spec fn added(before: Seq<Issued>, after: Seq<Issued>) -> Seq<Issued> {
    after.skip(before.len() as int)
}

/// Whether `entry` is the query with the given text and parameters.
pub open spec fn is_query(entry: Issued, sql: Seq<char>, args: Seq<SqlArgView>) -> bool {
    entry.sql == sql && entry.args == args && entry.reply is Rows
}

/// The rows that a query returned, if it returned any.
pub open spec fn rows_of(entry: Issued) -> Option<Seq<Seq<SqlValueView>>> {
    match entry.reply {
        Reply::Rows(rows) => rows,
        _ => None,
    }
}

/// `after` is `before` and then one query with the given text and
/// parameters.
pub open spec fn asked(
    before: Seq<Issued>,
    after: Seq<Issued>,
    sql: Seq<char>,
    args: Seq<SqlArgView>,
) -> bool {
    &&& after.len() == before.len() + 1
    &&& after.drop_last() == before
    &&& is_query(after.last(), sql, args)
}

/// Whether `entry` is the change with the given text and parameters.
pub open spec fn is_change(entry: Issued, sql: Seq<char>, args: Seq<SqlArgView>) -> bool {
    entry.sql == sql && entry.args == args && entry.reply is Changed
}

/// Whether the store carried a change out.
pub open spec fn carried_out(entry: Issued) -> bool {
    entry.reply matches Reply::Changed(Some(_))
}

/// `after` is `before` and then one change with the given text and
/// parameters.
pub open spec fn changed(
    before: Seq<Issued>,
    after: Seq<Issued>,
    sql: Seq<char>,
    args: Seq<SqlArgView>,
) -> bool {
    &&& after.len() == before.len() + 1
    &&& after.drop_last() == before
    &&& is_change(after.last(), sql, args)
}

/// Whether `entry` is the beginning of a transaction.
pub open spec fn is_begin(entry: Issued) -> bool {
    entry.sql.len() == 0 && entry.args.len() == 0 && entry.reply is Begun
}

/// Whether the store began the transaction.
pub open spec fn began(entry: Issued) -> bool {
    entry.reply == Reply::Begun(true)
}

/// Whether `entry` is the commit of a transaction.
pub open spec fn is_commit(entry: Issued) -> bool {
    entry.sql.len() == 0 && entry.args.len() == 0 && entry.reply is Committed
}

/// Whether the store committed the transaction.
pub open spec fn committed(entry: Issued) -> bool {
    entry.reply == Reply::Committed(true)
}

/// Whether `entry` is the batch with the given text.
pub open spec fn is_batch(entry: Issued, sql: Seq<char>) -> bool {
    entry.sql == sql && entry.args.len() == 0 && entry.reply is Batch
}

/// Whether the store ran the batch without an error.
pub open spec fn ran(entry: Issued) -> bool {
    entry.reply == Reply::Batch(true)
}

/// The number of rows that a change reported, if it reported any.
pub open spec fn changed_rows(outcome: Result<usize, StoreError>) -> Option<usize> {
    match outcome {
        Ok(changed) => Some(changed),
        Err(_) => None,
    }
}

/// The rows that a query returned, if it returned any.
pub open spec fn fetched_rows(outcome: Result<Vec<Vec<SqlValue>>, StoreError>) -> Option<
    Seq<Seq<SqlValueView>>,
> {
    match outcome {
        Ok(rows) => Some(rows.deep_view()),
        Err(_) => None,
    }
}

/// `Connection::open`: opens the store at `path`, creating the file if it is
/// absent. Nothing is claimed of the outcome.
#[verifier::external_body]
pub(crate) fn open(path: &std::path::PathBuf) -> (r: Result<rusqlite::Connection, rusqlite::Error>)
{
    rusqlite::Connection::open(path)
}

/// `vtab::array::load_module`: registers the `rarray` table-valued function
/// on the connection. Nothing is claimed of the outcome.
#[verifier::external_body]
pub(crate) fn load_array_module(db: &rusqlite::Connection) -> (r: Result<(), rusqlite::Error>)
{
    rusqlite::vtab::array::load_module(db)
}

/// `Connection::transaction`: begins a transaction, which rolls back when it
/// is dropped without a commit. Nothing is claimed of the outcome.
#[verifier::external_body]
pub(crate) fn begin<'a>(db: &'a mut rusqlite::Connection) -> (r: Result<rusqlite::Transaction<'a>, rusqlite::Error>)
{
    db.transaction()
}

/// `Connection::unchecked_transaction`: begins a transaction on a shared
/// connection, which rolls back when it is dropped without a commit.
/// Nothing is claimed of the outcome.
#[verifier::external_body]
fn begin_unchecked<'a>(db: &'a rusqlite::Connection) -> (r: Result<rusqlite::Transaction<'a>, rusqlite::Error>)
{
    db.unchecked_transaction()
}

/// `Transaction::commit`: commits and consumes the transaction. Nothing is
/// claimed of the outcome.
#[verifier::external_body]
pub(crate) fn commit(trx: rusqlite::Transaction<'_>) -> (r: Result<(), rusqlite::Error>)
{
    trx.commit()
}

/// `Deref::deref` of a transaction: the connection that it runs on.
#[verifier::external_body]
pub(crate) fn reach<'a, 'b>(trx: &'a rusqlite::Transaction<'b>) -> (r: &'a rusqlite::Connection)
{
    trx
}

/// The `Display` text of a store error.
#[verifier::external_body]
pub(crate) fn describe(error: &rusqlite::Error) -> (r: String)
{
    error.to_string()
}

/// `ToSqlOutput::Owned` of `Value::Integer`: the parameter that holds the
/// integer.
#[verifier::external_body]
fn bound_integer(value: i64) -> (r: rusqlite::types::ToSqlOutput<'static>)
{
    rusqlite::types::ToSqlOutput::Owned(rusqlite::types::Value::Integer(value))
}

/// `ToSqlOutput::Owned` of `Value::Text`: the parameter that holds the text.
#[verifier::external_body]
fn bound_text(value: &String) -> (r: rusqlite::types::ToSqlOutput<'static>)
{
    rusqlite::types::ToSqlOutput::Owned(rusqlite::types::Value::Text(value.clone()))
}

/// `ToSqlOutput::Owned`: the parameter that holds the given value of the
/// store.
#[verifier::external_body]
fn bound_real(value: &rusqlite::types::Value) -> (r: rusqlite::types::ToSqlOutput<'static>)
{
    rusqlite::types::ToSqlOutput::Owned(value.clone())
}

/// `ToSqlOutput::Array`: the parameter that holds the ids, each as a
/// `Value::Integer`, in their order.
#[verifier::external_body]
fn bound_ids(ids: &Vec<i64>) -> (r: rusqlite::types::ToSqlOutput<'static>)
{
    rusqlite::types::ToSqlOutput::Array(std::rc::Rc::new(
        ids.iter().map(|id| rusqlite::types::Value::Integer(*id)).collect(),
    ))
}

/// `Clone::clone` of a value of the store: a value equal to the one given.
#[verifier::external_body]
pub(crate) fn same_real(value: &rusqlite::types::Value) -> (r: rusqlite::types::Value)
    ensures
        r == *value,
{
    value.clone()
}

/// `Connection::execute`: prepares and runs one statement and returns the
/// number of rows that it changed. Nothing is claimed of the outcome.
#[verifier::external_body]
fn execute(db: &rusqlite::Connection, sql: &str, args: &Vec<rusqlite::types::ToSqlOutput<'static>>) -> (r: Result<usize, rusqlite::Error>)
{
    db.execute(sql, rusqlite::params_from_iter(args.iter()))
}

/// `Connection::execute_batch`: runs several statements that take no
/// parameters. Nothing is claimed of the outcome.
#[verifier::external_body]
fn execute_batch(db: &rusqlite::Connection, sql: &str) -> (r: Result<(), rusqlite::Error>)
{
    db.execute_batch(sql)
}

/// `Connection::last_insert_rowid`: the row id of the most recent successful
/// insert on the connection. Nothing is claimed of its value.
#[verifier::external_body]
fn last_insert_rowid(db: &rusqlite::Connection) -> (r: i64)
{
    db.last_insert_rowid()
}

/// `Row::get_ref` and `FromSql::column_result` for `i64`: the integer in
/// column `index` of the row. It fails where the row has no such column or
/// the column holds no integer. Nothing is claimed of the outcome.
#[verifier::external_body]
fn cell_integer(row: &rusqlite::Row<'_>, index: usize) -> (r: Result<i64, rusqlite::Error>)
{
    Ok(rusqlite::types::FromSql::column_result(row.get_ref(index)?)?)
}

/// `Row::get_ref` and `FromSql::column_result` for `String`: the text in
/// column `index` of the row. It fails where the row has no such column or
/// the column holds no text that is UTF-8. Nothing is claimed of the outcome.
#[verifier::external_body]
fn cell_text(row: &rusqlite::Row<'_>, index: usize) -> (r: Result<String, rusqlite::Error>)
{
    Ok(rusqlite::types::FromSql::column_result(row.get_ref(index)?)?)
}

/// `Row::get_ref` and `FromSql::column_result` for a real number, held in a
/// `Value::Real`: the number in column `index` of the row, read from a real
/// number or from an integer. It fails where the row has no such column or
/// the column holds neither. Nothing is claimed of the outcome.
#[verifier::external_body]
fn cell_real(row: &rusqlite::Row<'_>, index: usize) -> (r: Result<rusqlite::types::Value, rusqlite::Error>)
{
    Ok(rusqlite::types::Value::Real(rusqlite::types::FromSql::column_result(row.get_ref(index)?)?))
}

/// `Row::get_ref` and `FromSql::column_result` for `Vec<u8>`: the bytes in
/// column `index` of the row. It fails where the row has no such column or
/// the column holds no blob. Nothing is claimed of the outcome.
#[verifier::external_body]
fn cell_blob(row: &rusqlite::Row<'_>, index: usize) -> (r: Result<Vec<u8>, rusqlite::Error>)
{
    Ok(rusqlite::types::FromSql::column_result(row.get_ref(index)?)?)
}

/// Reads column `index` of the row as `kind` says. The value that comes
/// back is of the variant asked for.
fn cell(row: &rusqlite::Row<'_>, index: usize, kind: Kind) -> (r: Result<SqlValue, rusqlite::Error>)
    ensures
        r matches Ok(value) ==> value@.kind() == kind,
{
    match kind {
        Kind::Integer => match cell_integer(row, index) {
            Ok(value) => Ok(SqlValue::Integer(value)),
            Err(error) => Err(error),
        },
        Kind::Text => match cell_text(row, index) {
            Ok(value) => Ok(SqlValue::Text(value)),
            Err(error) => Err(error),
        },
        Kind::Real => match cell_real(row, index) {
            Ok(value) => Ok(SqlValue::Real(value)),
            Err(error) => Err(error),
        },
        Kind::Blob => match cell_blob(row, index) {
            Ok(value) => Ok(SqlValue::Blob(value)),
            Err(error) => Err(error),
        },
    }
}

/// Reads the first `shape.len()` columns of a row, each as the kind that
/// `shape` gives it, and stops at the first column that cannot be read so.
/// With an empty shape no column is read, and the row comes back empty.
fn read_row(row: &rusqlite::Row<'_>, shape: &Vec<Kind>) -> (r: Result<Vec<SqlValue>, rusqlite::Error>)
    ensures
        r matches Ok(values) ==> fits(values.deep_view(), shape@),
        shape@.len() == 0 ==> r is Ok,
{
    let mut values: Vec<SqlValue> = Vec::new();
    let mut i: usize = 0;
    while i < shape.len()
        invariant
            i <= shape.len(),
            values.len() == i,
            forall|j: int| 0 <= j < i ==> (#[trigger] values@[j])@.kind() == shape@[j],
        decreases shape.len() - i,
    {
        match cell(row, i, shape[i]) {
            Ok(value) => {
                values.push(value);
            },
            Err(error) => {
                return Err(error);
            },
        }
        i = i + 1;
    }
    Ok(values)
}

/// `Connection::prepare` and `Statement::query_map`: runs one query and reads
/// every row of its result with [`read_row`], in the order in which the store
/// yields them. It fails where the query fails or a row cannot be read. Each
/// row that comes back fits `shape`, as `read_row` ensures.
#[verifier::external_body]
fn select(db: &rusqlite::Connection, sql: &str, args: &Vec<rusqlite::types::ToSqlOutput<'static>>, shape: &Vec<Kind>) -> (r: Result<Vec<Vec<SqlValue>>, rusqlite::Error>)
    ensures
        r matches Ok(rows) ==> all_fit(rows.deep_view(), shape@),
{
    let mut statement = db.prepare(sql)?;
    let rows = statement.query_map(rusqlite::params_from_iter(args.iter()), |row| read_row(row, shape))?;
    rows.collect()
}

fn bind_all(args: &Vec<SqlArg>) -> (r: Vec<rusqlite::types::ToSqlOutput<'static>>)
    ensures
        r.len() == args.len(),
{
    let mut out: Vec<rusqlite::types::ToSqlOutput<'static>> = Vec::new();
    let mut i: usize = 0;
    while i < args.len()
        invariant
            i <= args.len(),
            out.len() == i,
        decreases args.len() - i,
    {
        let param = match &args[i] {
            SqlArg::Integer(value) => bound_integer(*value),
            SqlArg::Text(value) => bound_text(value),
            SqlArg::Real(value) => bound_real(value),
            SqlArg::Ids(ids) => bound_ids(ids),
        };
        out.push(param);
        i = i + 1;
    }
    out
}

/// `Error::QueryReturnedNoRows`: the store's error for a query that was to
/// return a row and returned none.
#[verifier::external_body]
fn no_rows_error() -> (r: rusqlite::Error)
{
    rusqlite::Error::QueryReturnedNoRows
}

/// `Error::IntegralValueOutOfRange`: the store's error for an integer in
/// column `index` that does not fit the type it is read as.
#[verifier::external_body]
fn out_of_range_error(index: usize, value: i64) -> (r: rusqlite::Error)
{
    rusqlite::Error::IntegralValueOutOfRange(index, value)
}

/// The failure for a query that was to return a row and returned none,
/// with the message that the store gives such a query.
pub(crate) fn no_rows() -> (r: StoreError) {
    failure(no_rows_error())
}

/// The failure for an integer in column `index` that is out of the range
/// of the type it is read as, with the message that the store gives it.
pub(crate) fn out_of_range(index: usize, value: i64) -> (r: StoreError) {
    failure(out_of_range_error(index, value))
}

/// The failure that stands for an error of the store: its message is the
/// text that the error displays.
pub(crate) fn failure(error: rusqlite::Error) -> (r: StoreError) {
    StoreError { message: describe(&error) }
}

/// What a call into the store comes to: what the store returned where it
/// returned something, and the failure that stands for its error where it
/// did not.
pub fn settled<T>(outcome: Result<T, rusqlite::Error>) -> (r: Result<T, StoreError>)
    ensures
        match outcome {
            Ok(value) => r == Ok::<T, StoreError>(value),
            Err(_) => r is Err,
        },
{
    match outcome {
        Ok(value) => Ok(value),
        Err(error) => Err(failure(error)),
    }
}

/// Whether the outcome of a statement says that it added a row: the store
/// reported no error, and at least one row as changed.
pub fn took_a_row(outcome: &Result<usize, StoreError>) -> (r: bool)
    ensures
        r == takes(changed_rows(*outcome)),
{
    match outcome {
        Ok(changed) => *changed > 0,
        Err(_) => false,
    }
}

/// Begins a transaction on the store. It is rolled back unless
/// [`commit_transaction`] takes it.
pub fn transaction<'a>(db: &'a mut rusqlite::Connection) -> (r: Result<
    rusqlite::Transaction<'a>,
    StoreError,
>) {
    settled(begin(db))
}

/// Commits a transaction.
pub fn commit_transaction(trx: rusqlite::Transaction<'_>) -> (r: Result<(), StoreError>) {
    settled(commit(trx))
}

/// The number that a gateway shows for `length` statements: their number,
/// as far as 64 bits count.
pub open spec fn tally(length: nat) -> nat {
    if length <= u64::MAX {
        length
    } else {
        u64::MAX as nat
    }
}

/// A connection to the store together with the record of the statements
/// issued on it through this gateway, and of the store's answers.
pub struct Gateway<'a> {
    db: &'a rusqlite::Connection,
    count: u64,
    issued: Ghost<Seq<Issued>>,
}

impl<'a> Gateway<'a> {
    #[verifier::type_invariant]
    spec fn counts_what_was_issued(&self) -> bool {
        self.count as nat == tally(self.issued@.len())
    }

    /// The statements issued so far, oldest first.
    pub closed spec fn issued(&self) -> Seq<Issued> {
        self.issued@
    }

    /// A gateway on the connection of a transaction, which has issued nothing
    /// yet.
    pub fn within<'b>(trx: &'a rusqlite::Transaction<'b>) -> (gateway: Self)
        ensures
            gateway.issued() == Seq::<Issued>::empty(),
    {
        Gateway { db: reach(trx), count: 0, issued: Ghost(Seq::empty()) }
    }

    /// A gateway on `db` that has issued nothing yet.
    pub fn new(db: &'a rusqlite::Connection) -> (gateway: Self)
        ensures
            gateway.issued() == Seq::<Issued>::empty(),
    {
        Gateway { db, count: 0, issued: Ghost(Seq::empty()) }
    }

    /// The number of statements issued so far.
    pub fn statements(&self) -> (n: u64)
        ensures
            n == tally(self.issued().len()),
    {
        proof {
            use_type_invariant(self);
        }
        self.count
    }

    fn record(&mut self, entry: Ghost<Issued>)
        ensures
            final(self).issued() == old(self).issued().push(entry@),
    {
        proof {
            use_type_invariant(&*self);
        }
        let count = if self.count < u64::MAX {
            self.count + 1
        } else {
            self.count
        };
        *self = Gateway { db: self.db, count, issued: Ghost(self.issued@.push(entry@)) };
    }

    /// Begins a transaction on the connection. Every statement issued on the
    /// connection until the transaction is committed belongs to it, and all
    /// of them are undone where the transaction is dropped without a commit.
    pub fn begin(&mut self) -> (r: Result<rusqlite::Transaction<'a>, StoreError>)
        ensures
            final(self).issued() == old(self).issued().push(
                Issued { sql: Seq::empty(), args: Seq::empty(), reply: Reply::Begun(r is Ok) },
            ),
    {
        let r = settled(begin_unchecked(self.db));
        self.record(
            Ghost(Issued { sql: Seq::empty(), args: Seq::empty(), reply: Reply::Begun(r is Ok) }),
        );
        r
    }

    /// Commits a transaction that was begun on the connection.
    pub fn commit(&mut self, trx: rusqlite::Transaction<'a>) -> (r: Result<(), StoreError>)
        ensures
            final(self).issued() == old(self).issued().push(
                Issued { sql: Seq::empty(), args: Seq::empty(), reply: Reply::Committed(r is Ok) },
            ),
    {
        let r = settled(commit(trx));
        self.record(
            Ghost(
                Issued { sql: Seq::empty(), args: Seq::empty(), reply: Reply::Committed(r is Ok) },
            ),
        );
        r
    }

    /// Runs one insert and returns the id that the store gave to the new row,
    /// or nothing where the store reported an error or added no row: the id
    /// is asked for exactly where [`took_a_row`] says so of the statement's
    /// outcome.
    pub fn insert(&mut self, sql: &str, args: &Vec<SqlArg>) -> (r: Option<i64>)
        ensures
            inserted(old(self).issued(), final(self).issued(), sql@, args.deep_view()),
            r == row_of(final(self).issued().last()),
            r is Some <==> took(final(self).issued().last()),
    {
        let ghost before = self.issued();
        let params = bind_all(args);
        let outcome = settled(execute(self.db, sql, &params));
        let r = if took_a_row(&outcome) {
            Some(last_insert_rowid(self.db))
        } else {
            None
        };
        self.record(
            Ghost(
                Issued {
                    sql: sql@,
                    args: args.deep_view(),
                    reply: Reply::Row(changed_rows(outcome), r),
                },
            ),
        );
        assert(self.issued().drop_last() =~= before);
        r
    }

    /// Runs one statement that changes the store and returns the number of
    /// rows changed, or the store's error.
    pub fn run(&mut self, sql: &str, args: &Vec<SqlArg>) -> (r: Result<usize, StoreError>)
        ensures
            final(self).issued() == old(self).issued().push(
                Issued {
                    sql: sql@,
                    args: args.deep_view(),
                    reply: Reply::Changed(changed_rows(r)),
                },
            ),
    {
        let params = bind_all(args);
        let r = settled(execute(self.db, sql, &params));
        self.record(
            Ghost(
                Issued {
                    sql: sql@,
                    args: args.deep_view(),
                    reply: Reply::Changed(changed_rows(r)),
                },
            ),
        );
        r
    }

    /// Runs one query and returns its rows, each read as `shape` says, or the
    /// store's error.
    pub fn fetch(&mut self, sql: &str, args: &Vec<SqlArg>, shape: &Vec<Kind>) -> (r: Result<
        Vec<Vec<SqlValue>>,
        StoreError,
    >)
        ensures
            final(self).issued() == old(self).issued().push(
                Issued { sql: sql@, args: args.deep_view(), reply: Reply::Rows(fetched_rows(r)) },
            ),
            r matches Ok(rows) ==> all_fit(rows.deep_view(), shape@),
    {
        let params = bind_all(args);
        let r = settled(select(self.db, sql, &params, shape));
        self.record(
            Ghost(
                Issued { sql: sql@, args: args.deep_view(), reply: Reply::Rows(fetched_rows(r)) },
            ),
        );
        r
    }

    /// Runs a batch of statements that take no parameters.
    pub fn run_batch(&mut self, sql: &str) -> (r: Result<(), StoreError>)
        ensures
            final(self).issued() == old(self).issued().push(
                Issued { sql: sql@, args: Seq::empty(), reply: Reply::Batch(r is Ok) },
            ),
    {
        let r = settled(execute_batch(self.db, sql));
        self.record(
            Ghost(Issued { sql: sql@, args: Seq::empty(), reply: Reply::Batch(r is Ok) }),
        );
        r
    }
}

} // verus!
