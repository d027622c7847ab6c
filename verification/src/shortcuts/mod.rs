//! The Shortcuts library: compiling actions into the records the app stores
//! and reading them back, and the database: reading shortcuts and where they
//! appear, and writing their actions, input classes, names and folder
//! relations.
pub mod actions;
pub mod tables;
pub mod compiler;
pub mod encode;
pub mod decode;
pub mod record;
pub mod round_trip;

pub use actions::{build_action, ShortcutAction, ShortcutReference, ShortcutSpec};
pub use compiler::{dedupe_alias, slugify_alias};
pub use decode::decompile_actions;
pub use encode::{append_action, collect_outputs, compile_actions};
pub use tables::{CountTable, OutputTable, TextTable};

use vstd::prelude::*;

use crate::error::{result_view, MacosError, MacosErrorView};
use crate::text::{chars_eq, chars_of, decimal, push_decimal};

verus! {

broadcast use vstd::string::group_string_axioms;

/// How a caller names a shortcut: by its workflow id or by its name.
#[derive(Debug, Clone)]
pub enum ShortcutSelector {
    Id(String),
    Name(String),
}

/// A shortcut as the library lists it.
#[derive(Debug, Clone, PartialEq, Eq)]
pub struct ShortcutRecord {
    pub pk: i64,
    pub name: String,
    pub workflow_id: String,
    pub action_count: i64,
}

/// Where a shortcut appears: the share sheet, the library's root, or a folder.
#[derive(Debug, Clone, PartialEq, Eq)]
pub enum ShortcutSurface {
    ShareSheet,
    LibraryRoot,
    Folder(String),
}

/// What input a shortcut accepts.
#[derive(Debug, Clone, Copy, PartialEq, Eq)]
pub enum ShortcutInputPolicy {
    Any,
    Url,
    Urls,
    Text,
    Image,
    File,
}

/// A value in a statement or a row.
#[derive(Debug, Clone, PartialEq)]
pub enum SqlValue {
    Null,
    Integer(i64),
    Text(String),
    Blob(Vec<u8>),
}

/// The Shortcuts database, as the statements need it.
pub trait ShortcutsDb {
    /// Runs a statement that changes the database, or returns the error text.
    fn execute(&mut self, sql: &str, params: &Vec<SqlValue>) -> Result<(), String>;

    /// Runs a query and returns its rows, or the error text.
    fn query(&mut self, sql: &str, params: &Vec<SqlValue>) -> Result<Vec<Vec<SqlValue>>, String>;

    /// Starts a transaction.
    fn begin(&mut self) -> Result<(), String>;

    /// Commits the transaction.
    fn commit(&mut self) -> Result<(), String>;

    /// Rolls the transaction back.
    fn rollback(&mut self);
}

/// The value of a [`SqlValue`].
pub enum SqlValueView {
    Null,
    Integer(i64),
    Text(Seq<char>),
    Blob(Seq<u8>),
}

impl View for SqlValue {
    type V = SqlValueView;

    open spec fn view(&self) -> SqlValueView {
        match self {
            SqlValue::Null => SqlValueView::Null,
            SqlValue::Integer(v) => SqlValueView::Integer(*v),
            SqlValue::Text(t) => SqlValueView::Text(t@),
            SqlValue::Blob(b) => SqlValueView::Blob(b@),
        }
    }
}

/// The values of statement parameters.
pub open spec fn params_view(params: Seq<SqlValue>) -> Seq<SqlValueView> {
    params.map_values(|v: SqlValue| v@)
}

/// What the database answered a statement or a query: done, the rows, or
/// its error text.
pub enum DbAnswer {
    Done,
    Rows(Seq<Vec<SqlValue>>),
    Failed(Seq<char>),
}

/// A statement or query handed to the database: its text, its parameters
/// and the answer.
pub struct DbCall {
    pub sql: Seq<char>,
    pub params: Seq<SqlValueView>,
    pub answer: DbAnswer,
}

/// `after` is `before` with one more call, of `sql` with `params`.
pub open spec fn called(before: Seq<DbCall>, after: Seq<DbCall>, sql: Seq<char>, params: Seq<SqlValueView>) -> bool {
    &&& after.len() == before.len() + 1
    &&& after.drop_last() == before
    &&& after.last().sql == sql
    &&& after.last().params == params
}

/// What the answer to a statement means: success, or the error with the
/// database's text.
pub open spec fn done_result(a: DbAnswer) -> Result<(), MacosErrorView> {
    match a {
        DbAnswer::Failed(m) => Err(MacosErrorView::Other(m)),
        _ => Ok(()),
    }
}

/// The view of a result without a value.
pub open spec fn unit_view(r: Result<(), MacosError>) -> Result<(), MacosErrorView> {
    match r {
        Ok(()) => Ok(()),
        Err(e) => Err(e@),
    }
}

/// What a query's answer gives through `f`: `f` of the rows, or the error
/// with the database's text.
pub open spec fn from_rows<T>(a: DbAnswer, f: spec_fn(Seq<Vec<SqlValue>>) -> Result<T, MacosErrorView>) -> Result<T, MacosErrorView> {
    match a {
        DbAnswer::Rows(rows) => f(rows),
        DbAnswer::Failed(m) => Err(MacosErrorView::Other(m)),
        DbAnswer::Done => Err(row_error()),
    }
}

/// The answer to the last call of a session.
pub open spec fn last_answer(calls: Seq<DbCall>) -> DbAnswer {
    calls.last().answer
}

/// A session on the database, with the record of what it was asked and answered.
pub struct ShortcutStore<D: ShortcutsDb> {
    pub db: D,
    /// What each statement, start and commit of a transaction answered, in
    /// order: nothing for success, or the database's error text.
    pub replies: Ghost<Seq<Option<Seq<char>>>>,
    /// Each statement and query, in order, with its parameters and answer.
    pub calls: Ghost<Seq<DbCall>>,
}

/// `after` is `before` with one more answer, and `r` is what that answer
/// means: success, or the error with the database's text.
pub open spec fn answered<T>(before: Seq<Option<Seq<char>>>, after: Seq<Option<Seq<char>>>, r: Result<T, MacosError>) -> bool {
    &&& after.len() == before.len() + 1
    &&& after.drop_last() == before
    &&& match after.last() {
        None => r is Ok,
        Some(m) => r matches Err(e) && e@ == MacosErrorView::Other(m),
    }
}

impl<D: ShortcutsDb> ShortcutStore<D> {
    /// A session that has run nothing yet.
    pub fn new(db: D) -> (s: Self)
        ensures
            s.replies@ == Seq::<Option<Seq<char>>>::empty(),
            s.calls@ == Seq::<DbCall>::empty(),
    {
        ShortcutStore { db, replies: Ghost(Seq::empty()), calls: Ghost(Seq::empty()) }
    }

    fn execute(&mut self, sql: &str, params: &Vec<SqlValue>) -> (r: Result<(), MacosError>)
        ensures
            called(old(self).calls@, final(self).calls@, sql@, params_view(params@)),
            final(self).calls@.last().answer !is Rows,
            unit_view(r) == done_result(final(self).calls@.last().answer),
            match r {
                Err(e) => e is Other,
                Ok(_) => true,
            },
            answered(old(self).replies@, final(self).replies@, r),
    {
        let r = match self.db.execute(sql, params) {
            Ok(()) => Ok(()),
            Err(e) => Err(MacosError::Other(e)),
        };
        let ghost answer = match &r {
            Ok(_) => DbAnswer::Done,
            Err(MacosError::Other(m)) => DbAnswer::Failed(m@),
            Err(_) => DbAnswer::Done,
        };
        self.calls = Ghost(self.calls@.push(DbCall { sql: sql@, params: params_view(params@), answer }));
        assert(self.calls@.drop_last() =~= old(self).calls@);
        self.note_result(&r);
        r
    }

    fn query(&mut self, sql: &str, params: &Vec<SqlValue>) -> (r: Result<Vec<Vec<SqlValue>>, MacosError>)
        ensures
            called(old(self).calls@, final(self).calls@, sql@, params_view(params@)),
            match final(self).calls@.last().answer {
                DbAnswer::Rows(rows) => r matches Ok(v) && v@ == rows,
                DbAnswer::Failed(m) => r matches Err(e) && e@ == MacosErrorView::Other(m),
                DbAnswer::Done => false,
            },
            match r {
                Err(e) => e is Other,
                Ok(_) => true,
            },
            answered(old(self).replies@, final(self).replies@, r),
    {
        let r = match self.db.query(sql, params) {
            Ok(rows) => Ok(rows),
            Err(e) => Err(MacosError::Other(e)),
        };
        let ghost answer = match &r {
            Ok(rows) => DbAnswer::Rows(rows@),
            Err(MacosError::Other(m)) => DbAnswer::Failed(m@),
            Err(_) => DbAnswer::Done,
        };
        self.calls = Ghost(self.calls@.push(DbCall { sql: sql@, params: params_view(params@), answer }));
        assert(self.calls@.drop_last() =~= old(self).calls@);
        self.note_result(&r);
        r
    }

    /// Notes what a call answered: success, or the text of its error.
    fn note_result<T>(&mut self, r: &Result<T, MacosError>)
        requires
            r matches Err(e) ==> e is Other,
        ensures
            final(self).calls == old(self).calls,
            answered(old(self).replies@, final(self).replies@, *r),
    {
        let ghost reply = match r {
            Ok(_) => None::<Seq<char>>,
            Err(MacosError::Other(m)) => Some(m@),
            Err(_) => None::<Seq<char>>,
        };
        let ghost prev = self.replies@;
        self.replies = Ghost(prev.push(reply));
        assert(self.replies@.drop_last() =~= prev);
    }

    /// Starts a transaction.
    fn begin(&mut self) -> (r: Result<(), MacosError>)
        ensures
            final(self).calls@ == old(self).calls@,
            answered(old(self).replies@, final(self).replies@, r),
    {
        let r = match self.db.begin() {
            Ok(()) => Ok(()),
            Err(e) => Err(MacosError::Other(e)),
        };
        self.note_result(&r);
        r
    }

    /// Commits the transaction.
    fn commit(&mut self) -> (r: Result<(), MacosError>)
        ensures
            final(self).calls@ == old(self).calls@,
            answered(old(self).replies@, final(self).replies@, r),
    {
        let r = match self.db.commit() {
            Ok(()) => Ok(()),
            Err(e) => Err(MacosError::Other(e)),
        };
        self.note_result(&r);
        r
    }

    /// Rolls the transaction back.
    fn rollback(&mut self)
        ensures
            final(self).calls@ == old(self).calls@,
            final(self).replies@ == old(self).replies@,
    {
        self.db.rollback();
    }
}

/// The error for a row whose columns are not of the expected kinds.
pub open spec fn row_error() -> MacosErrorView {
    MacosErrorView::Other("unexpected column type in shortcuts database row"@)
}

fn row_error_value() -> (e: MacosError)
    ensures
        e@ == row_error(),
{
    MacosError::Other(String::from_str("unexpected column type in shortcuts database row"))
}

/// The shortcut a row (`Z_PK, ZNAME, ZWORKFLOWID, ZACTIONCOUNT`) describes; a
/// missing action count counts as zero.
pub open spec fn spec_record_of_row(row: Seq<SqlValue>) -> Option<(i64, Seq<char>, Seq<char>, i64)> {
    if row.len() < 4 {
        None
    } else {
        match (row[0], row[1], row[2], row[3]) {
            (SqlValue::Integer(pk), SqlValue::Text(name), SqlValue::Text(id), SqlValue::Integer(n)) => Some((pk, name@, id@, n)),
            (SqlValue::Integer(pk), SqlValue::Text(name), SqlValue::Text(id), SqlValue::Null) => Some((pk, name@, id@, 0)),
            _ => None,
        }
    }
}

/// The fields of a record.
pub open spec fn record_fields(r: ShortcutRecord) -> (i64, Seq<char>, Seq<char>, i64) {
    (r.pk, r.name@, r.workflow_id@, r.action_count)
}

/// Reads a shortcut row.
pub fn record_of_row(row: &Vec<SqlValue>) -> (r: Result<ShortcutRecord, MacosError>)
    ensures
        match spec_record_of_row(row@) {
            Some(f) => r matches Ok(rec) && record_fields(rec) == f,
            None => r matches Err(e) && e@ == row_error(),
        },
{
    if row.len() < 4 {
        return Err(row_error_value());
    }
    let pk = match &row[0] {
        SqlValue::Integer(v) => *v,
        _ => {
            return Err(row_error_value());
        },
    };
    let name = match &row[1] {
        SqlValue::Text(t) => t.clone(),
        _ => {
            return Err(row_error_value());
        },
    };
    let workflow_id = match &row[2] {
        SqlValue::Text(t) => t.clone(),
        _ => {
            return Err(row_error_value());
        },
    };
    let action_count = match &row[3] {
        SqlValue::Integer(v) => *v,
        SqlValue::Null => 0,
        _ => {
            return Err(row_error_value());
        },
    };
    Ok(ShortcutRecord { pk, name, workflow_id, action_count })
}

/// The shortcuts the rows describe, in order, or `None` when a row is not a
/// shortcut row.
pub open spec fn spec_records_of_rows(rows: Seq<Vec<SqlValue>>) -> Option<Seq<(i64, Seq<char>, Seq<char>, i64)>>
    decreases rows.len(),
{
    if rows.len() == 0 {
        Some(Seq::empty())
    } else {
        match (spec_records_of_rows(rows.drop_last()), spec_record_of_row(rows.last()@)) {
            (Some(rs), Some(f)) => Some(rs.push(f)),
            _ => None,
        }
    }
}

/// The fields of the records, in order.
pub open spec fn records_fields(rs: Seq<ShortcutRecord>) -> Seq<(i64, Seq<char>, Seq<char>, i64)> {
    rs.map_values(|r: ShortcutRecord| record_fields(r))
}

/// Reads shortcut rows.
pub fn records_of_rows(rows: &Vec<Vec<SqlValue>>) -> (r: Result<Vec<ShortcutRecord>, MacosError>)
    ensures
        match spec_records_of_rows(rows@) {
            Some(fs) => r matches Ok(recs) && records_fields(recs@) == fs,
            None => r matches Err(e) && e@ == row_error(),
        },
{
    let mut out: Vec<ShortcutRecord> = Vec::new();
    let mut i: usize = 0;
    while i < rows.len()
        invariant
            i <= rows@.len(),
            spec_records_of_rows(rows@.take(i as int)) == Some(records_fields(out@)),
        decreases rows@.len() - i,
    {
        proof {
            assert(rows@.take(i + 1).drop_last() =~= rows@.take(i as int));
            assert(rows@.take(i + 1).last() == rows@[i as int]);
        }
        match record_of_row(&rows[i]) {
            Ok(rec) => {
                let ghost before = out@;
                out.push(rec);
                assert(records_fields(out@) =~= records_fields(before).push(record_fields(rec)));
            },
            Err(e) => {
                proof {
                    lemma_records_none_extends(rows@, i as int + 1);
                }
                return Err(e);
            },
        }
        i = i + 1;
    }
    assert(rows@.take(rows@.len() as int) =~= rows@);
    Ok(out)
}

proof fn lemma_records_none_extends(rows: Seq<Vec<SqlValue>>, k: int)
    requires
        0 <= k <= rows.len(),
        spec_records_of_rows(rows.take(k)) is None,
    ensures
        spec_records_of_rows(rows) is None,
    decreases rows.len() - k,
{
    if k < rows.len() {
        assert(rows.take(k + 1).drop_last() =~= rows.take(k));
        lemma_records_none_extends(rows, k + 1);
    } else {
        assert(rows.take(k) =~= rows);
    }
}

/// The query that lists every shortcut.
pub const LIST_SHORTCUTS_SQL: &'static str = r#"
        SELECT Z_PK, ZNAME, ZWORKFLOWID, ZACTIONCOUNT
        FROM ZSHORTCUT
        ORDER BY Z_PK
        "#;

/// The shortcuts rows describe, or the error for a row that is not a
/// shortcut row.
pub open spec fn spec_list_of_rows(rows: Seq<Vec<SqlValue>>) -> Result<Seq<(i64, Seq<char>, Seq<char>, i64)>, MacosErrorView> {
    match spec_records_of_rows(rows) {
        Some(fs) => Ok(fs),
        None => Err(row_error()),
    }
}

/// The view of a list of records.
pub open spec fn records_view(r: Result<Vec<ShortcutRecord>, MacosError>) -> Result<Seq<(i64, Seq<char>, Seq<char>, i64)>, MacosErrorView> {
    match r {
        Ok(v) => Ok(records_fields(v@)),
        Err(e) => Err(e@),
    }
}

/// Lists every shortcut in the library: one record for each row the listing
/// query answers, in the order of the rows (the query orders them by key).
pub fn list_shortcuts<D: ShortcutsDb>(store: &mut ShortcutStore<D>) -> (r: Result<Vec<ShortcutRecord>, MacosError>)
    ensures
        called(old(store).calls@, final(store).calls@, LIST_SHORTCUTS_SQL@, Seq::empty()),
        records_view(r) == from_rows(last_answer(final(store).calls@), |rows: Seq<Vec<SqlValue>>| spec_list_of_rows(rows)),
{
    let none: Vec<SqlValue> = Vec::new();
    assert(params_view(none@) =~= Seq::<SqlValueView>::empty());
    let rows = match store.query(LIST_SHORTCUTS_SQL, &none) {
        Ok(rows) => rows,
        Err(e) => {
            return Err(e);
        },
    };
    records_of_rows(&rows)
}

/// The query for the highest shortcut key.
pub const LATEST_PK_SQL: &'static str = "SELECT MAX(Z_PK) FROM ZSHORTCUT";

/// The error for a query that gave no row where one was owed.
pub open spec fn no_rows_error() -> MacosErrorView {
    MacosErrorView::Other("Query returned no rows"@)
}

/// What a single-value integer query gives: its value, `None` for NULL.
pub open spec fn spec_optional_integer(rows: Seq<Vec<SqlValue>>) -> Result<Option<i64>, MacosErrorView> {
    if rows.len() == 0 || rows[0]@.len() == 0 {
        Err(no_rows_error())
    } else {
        match rows[0]@[0] {
            SqlValue::Integer(v) => Ok(Some(v)),
            SqlValue::Null => Ok(None),
            _ => Err(row_error()),
        }
    }
}

fn optional_integer(rows: &Vec<Vec<SqlValue>>) -> (r: Result<Option<i64>, MacosError>)
    ensures
        result_view(r) == spec_optional_integer(rows@),
{
    if rows.len() == 0 || rows[0].len() == 0 {
        return Err(MacosError::Other(String::from_str("Query returned no rows")));
    }
    match &rows[0][0] {
        SqlValue::Integer(v) => Ok(Some(*v)),
        SqlValue::Null => Ok(None),
        _ => Err(row_error_value()),
    }
}

/// The highest shortcut key, if there is a shortcut.
pub fn latest_shortcut_pk<D: ShortcutsDb>(store: &mut ShortcutStore<D>) -> (r: Result<Option<i64>, MacosError>)
    ensures
        called(old(store).calls@, final(store).calls@, LATEST_PK_SQL@, Seq::empty()),
        result_view(r) == from_rows(last_answer(final(store).calls@), |rows: Seq<Vec<SqlValue>>| spec_optional_integer(rows)),
{
    let none: Vec<SqlValue> = Vec::new();
    assert(params_view(none@) =~= Seq::<SqlValueView>::empty());
    let rows = match store.query(LATEST_PK_SQL, &none) {
        Ok(rows) => rows,
        Err(e) => {
            return Err(e);
        },
    };
    optional_integer(&rows)
}

/// The query for the newest shortcut with a key above a bound.
pub const LATEST_AFTER_PK_SQL: &'static str = r#"
        SELECT Z_PK, ZNAME, ZWORKFLOWID, ZACTIONCOUNT
        FROM ZSHORTCUT
        WHERE Z_PK > ?1
        ORDER BY Z_PK DESC
        LIMIT 1
        "#;

/// What an optional single-record query gives: the first row's shortcut, or
/// `None` when there is no row.
pub open spec fn spec_first_record(rows: Seq<Vec<SqlValue>>) -> Result<Option<(i64, Seq<char>, Seq<char>, i64)>, MacosErrorView> {
    if rows.len() == 0 {
        Ok(None)
    } else {
        match spec_record_of_row(rows[0]@) {
            Some(f) => Ok(Some(f)),
            None => Err(row_error()),
        }
    }
}

/// The view of an optional record.
pub open spec fn opt_record_view(r: Result<Option<ShortcutRecord>, MacosError>) -> Result<Option<(i64, Seq<char>, Seq<char>, i64)>, MacosErrorView> {
    match r {
        Ok(Some(rec)) => Ok(Some(record_fields(rec))),
        Ok(None) => Ok(None),
        Err(e) => Err(e@),
    }
}

fn first_record(rows: &Vec<Vec<SqlValue>>) -> (r: Result<Option<ShortcutRecord>, MacosError>)
    ensures
        opt_record_view(r) == spec_first_record(rows@),
{
    if rows.len() == 0 {
        return Ok(None);
    }
    match record_of_row(&rows[0]) {
        Ok(rec) => Ok(Some(rec)),
        Err(e) => Err(e),
    }
}

/// The newest shortcut whose key is above `min_pk`, if any.
pub fn find_latest_shortcut_after_pk<D: ShortcutsDb>(store: &mut ShortcutStore<D>, min_pk: i64) -> (r: Result<Option<ShortcutRecord>, MacosError>)
    ensures
        called(old(store).calls@, final(store).calls@, LATEST_AFTER_PK_SQL@, seq![SqlValueView::Integer(min_pk)]),
        opt_record_view(r) == from_rows(last_answer(final(store).calls@), |rows: Seq<Vec<SqlValue>>| spec_first_record(rows)),
{
    let params = vec![SqlValue::Integer(min_pk)];
    assert(params_view(params@) =~= seq![SqlValueView::Integer(min_pk)]);
    let rows = match store.query(LATEST_AFTER_PK_SQL, &params) {
        Ok(rows) => rows,
        Err(e) => {
            return Err(e);
        },
    };
    first_record(&rows)
}

/// The query for the shortcut with a workflow id.
pub const FIND_BY_ID_SQL: &'static str = r#"
        SELECT Z_PK, ZNAME, ZWORKFLOWID, ZACTIONCOUNT
        FROM ZSHORTCUT
        WHERE ZWORKFLOWID = ?1
        "#;

/// The query for the shortcuts with a name.
pub const FIND_BY_NAME_SQL: &'static str = r#"
        SELECT Z_PK, ZNAME, ZWORKFLOWID, ZACTIONCOUNT
        FROM ZSHORTCUT
        WHERE ZNAME = ?1
        ORDER BY Z_PK
        "#;

/// The error for a shortcut that is not there.
pub open spec fn shortcut_not_found(key: Seq<char>) -> MacosErrorView {
    MacosErrorView::NotFound("shortcut not found: "@ + key)
}

/// What looking a name up gives, from the shortcuts with that name: the only
/// one, or the error for none or several.
pub open spec fn spec_pick_by_name(records: Seq<(i64, Seq<char>, Seq<char>, i64)>, name: Seq<char>) -> Result<(i64, Seq<char>, Seq<char>, i64), MacosErrorView> {
    if records.len() == 0 {
        Err(shortcut_not_found(name))
    } else if records.len() == 1 {
        Ok(records[0])
    } else {
        Err(MacosErrorView::Other("multiple shortcuts matched: "@ + name))
    }
}

/// The view of a record result.
pub open spec fn record_view(r: Result<ShortcutRecord, MacosError>) -> Result<(i64, Seq<char>, Seq<char>, i64), MacosErrorView> {
    match r {
        Ok(rec) => Ok(record_fields(rec)),
        Err(e) => Err(e@),
    }
}

/// Picks the shortcut a name names among those with that name.
pub fn pick_by_name(records: Vec<ShortcutRecord>, name: &str) -> (r: Result<ShortcutRecord, MacosError>)
    ensures
        record_view(r) == spec_pick_by_name(records_fields(records@), name@),
{
    let mut records = records;
    if records.len() == 0 {
        let mut m = String::from_str("shortcut not found: ");
        m.append(name);
        return Err(MacosError::NotFound(m));
    }
    if records.len() > 1 {
        let mut m = String::from_str("multiple shortcuts matched: ");
        m.append(name);
        return Err(MacosError::Other(m));
    }
    let ghost all = records@;
    let rec = records.remove(0);
    assert(records_fields(all)[0] == record_fields(rec));
    Ok(rec)
}

/// What the rows for a workflow id give: the first row's shortcut, or the
/// not-found error when there is none.
pub open spec fn spec_find_by_id(rows: Seq<Vec<SqlValue>>, id: Seq<char>) -> Result<(i64, Seq<char>, Seq<char>, i64), MacosErrorView> {
    match spec_first_record(rows) {
        Ok(Some(f)) => Ok(f),
        Ok(None) => Err(shortcut_not_found(id)),
        Err(e) => Err(e),
    }
}

/// What the rows for a name give: the only shortcut with the name, or the
/// error for none or several.
pub open spec fn spec_find_by_name(rows: Seq<Vec<SqlValue>>, name: Seq<char>) -> Result<(i64, Seq<char>, Seq<char>, i64), MacosErrorView> {
    match spec_records_of_rows(rows) {
        Some(fs) => spec_pick_by_name(fs, name),
        None => Err(row_error()),
    }
}

/// The shortcut a selector names: the one with the workflow id, or the only
/// one with the name.
pub fn find_shortcut<D: ShortcutsDb>(store: &mut ShortcutStore<D>, selector: &ShortcutSelector) -> (r: Result<ShortcutRecord, MacosError>)
    ensures
        match selector {
            ShortcutSelector::Id(id) => {
                &&& called(old(store).calls@, final(store).calls@, FIND_BY_ID_SQL@, seq![SqlValueView::Text(id@)])
                &&& record_view(r) == from_rows(last_answer(final(store).calls@), |rows: Seq<Vec<SqlValue>>| spec_find_by_id(rows, id@))
            },
            ShortcutSelector::Name(name) => {
                &&& called(old(store).calls@, final(store).calls@, FIND_BY_NAME_SQL@, seq![SqlValueView::Text(name@)])
                &&& record_view(r) == from_rows(last_answer(final(store).calls@), |rows: Seq<Vec<SqlValue>>| spec_find_by_name(rows, name@))
            },
        },
        match (selector, r) {
            (ShortcutSelector::Id(key), Err(MacosError::NotFound(m))) => m@ == "shortcut not found: "@ + key@,
            (ShortcutSelector::Name(key), Err(MacosError::NotFound(m))) => m@ == "shortcut not found: "@ + key@,
            _ => true,
        },
{
    match selector {
        ShortcutSelector::Id(id) => {
            let params = vec![SqlValue::Text(id.clone())];
            assert(params_view(params@) =~= seq![SqlValueView::Text(id@)]);
            let rows = match store.query(FIND_BY_ID_SQL, &params) {
                Ok(rows) => rows,
                Err(e) => {
                    return Err(e);
                },
            };
            match first_record(&rows) {
                Ok(Some(rec)) => Ok(rec),
                Ok(None) => {
                    let mut m = String::from_str("shortcut not found: ");
                    m.append(id.as_str());
                    Err(MacosError::NotFound(m))
                },
                Err(e) => Err(e),
            }
        },
        ShortcutSelector::Name(name) => {
            let params = vec![SqlValue::Text(name.clone())];
            assert(params_view(params@) =~= seq![SqlValueView::Text(name@)]);
            let rows = match store.query(FIND_BY_NAME_SQL, &params) {
                Ok(rows) => rows,
                Err(e) => {
                    return Err(e);
                },
            };
            let records = match records_of_rows(&rows) {
                Ok(r) => r,
                Err(e) => {
                    return Err(e);
                },
            };
            pick_by_name(records, name.as_str())
        },
    }
}

/// The query for whether a shortcut is in a collection.
pub const HAS_RELATION_SQL: &'static str = "SELECT 1 FROM Z_4SHORTCUTS WHERE Z_7SHORTCUTS = ?1 AND Z_4PARENTS1 = ?2 LIMIT 1";

/// Whether the shortcut with key `shortcut_pk` is in the collection `collection_pk`.
pub fn shortcut_has_relation<D: ShortcutsDb>(store: &mut ShortcutStore<D>, shortcut_pk: i64, collection_pk: i64) -> (r: Result<bool, MacosError>)
    ensures
        called(old(store).calls@, final(store).calls@, HAS_RELATION_SQL@, seq![SqlValueView::Integer(shortcut_pk), SqlValueView::Integer(collection_pk)]),
        result_view(r) == from_rows(last_answer(final(store).calls@), |rows: Seq<Vec<SqlValue>>| Ok::<bool, MacosErrorView>(rows.len() > 0)),
{
    let params = vec![SqlValue::Integer(shortcut_pk), SqlValue::Integer(collection_pk)];
    assert(params_view(params@) =~= seq![SqlValueView::Integer(shortcut_pk), SqlValueView::Integer(collection_pk)]);
    match store.query(HAS_RELATION_SQL, &params) {
        Ok(rows) => Ok(rows.len() > 0),
        Err(e) => Err(e),
    }
}

/// The query for the collections a shortcut is in, with their names.
pub const SURFACES_SQL: &'static str = r#"
        SELECT c.Z_PK, c.ZNAME
        FROM Z_4SHORTCUTS rel
        JOIN ZCOLLECTION c ON c.Z_PK = rel.Z_4PARENTS1
        WHERE rel.Z_7SHORTCUTS = ?1
        ORDER BY c.Z_PK
        "#;

/// The collection that holds the share sheet's shortcuts.
pub const SHARE_SHEET_COLLECTION_PK: i64 = 2;

/// The collection of the library's root.
pub const LIBRARY_ROOT_COLLECTION_PK: i64 = 6;

/// Where a collection puts a shortcut: the share sheet and the root by their
/// keys, any other named collection as a folder; an unnamed one nowhere.
pub open spec fn spec_surface_of(pk: i64, name: Option<Seq<char>>) -> Option<SurfaceView> {
    if pk == SHARE_SHEET_COLLECTION_PK {
        Some(SurfaceView::ShareSheet)
    } else if pk == LIBRARY_ROOT_COLLECTION_PK {
        Some(SurfaceView::LibraryRoot)
    } else {
        match name {
            Some(n) => Some(SurfaceView::Folder(n)),
            None => None,
        }
    }
}

/// A surface as a value.
pub enum SurfaceView {
    ShareSheet,
    LibraryRoot,
    Folder(Seq<char>),
}

/// The value of a surface.
pub open spec fn surface_view(s: ShortcutSurface) -> SurfaceView {
    match s {
        ShortcutSurface::ShareSheet => SurfaceView::ShareSheet,
        ShortcutSurface::LibraryRoot => SurfaceView::LibraryRoot,
        ShortcutSurface::Folder(n) => SurfaceView::Folder(n@),
    }
}

/// The values of surfaces.
pub open spec fn surface_views(s: Seq<ShortcutSurface>) -> Seq<SurfaceView> {
    s.map_values(|x: ShortcutSurface| surface_view(x))
}

/// The surfaces collection rows put a shortcut on, in order; `None` when a
/// row is not a `(key, name)` row.
pub open spec fn spec_surfaces_of_rows(rows: Seq<Vec<SqlValue>>) -> Option<Seq<SurfaceView>>
    decreases rows.len(),
{
    if rows.len() == 0 {
        Some(Seq::empty())
    } else {
        let row = rows.last()@;
        match spec_surfaces_of_rows(rows.drop_last()) {
            None => None,
            Some(rs) => if row.len() < 2 {
                None
            } else {
                match (row[0], row[1]) {
                    (SqlValue::Integer(pk), SqlValue::Text(n)) => match spec_surface_of(pk, Some(n@)) {
                        Some(s) => Some(rs.push(s)),
                        None => Some(rs),
                    },
                    (SqlValue::Integer(pk), SqlValue::Null) => match spec_surface_of(pk, None) {
                        Some(s) => Some(rs.push(s)),
                        None => Some(rs),
                    },
                    _ => None,
                }
            },
        }
    }
}

proof fn lemma_surfaces_none_extends(rows: Seq<Vec<SqlValue>>, k: int)
    requires
        0 <= k <= rows.len(),
        spec_surfaces_of_rows(rows.take(k)) is None,
    ensures
        spec_surfaces_of_rows(rows) is None,
    decreases rows.len() - k,
{
    if k < rows.len() {
        assert(rows.take(k + 1).drop_last() =~= rows.take(k));
        lemma_surfaces_none_extends(rows, k + 1);
    } else {
        assert(rows.take(k) =~= rows);
    }
}

/// Reads the surfaces from collection rows.
pub fn surfaces_of_rows(rows: &Vec<Vec<SqlValue>>) -> (r: Result<Vec<ShortcutSurface>, MacosError>)
    ensures
        match spec_surfaces_of_rows(rows@) {
            Some(s) => r matches Ok(v) && surface_views(v@) == s,
            None => r matches Err(e) && e@ == row_error(),
        },
{
    let mut out: Vec<ShortcutSurface> = Vec::new();
    let mut i: usize = 0;
    while i < rows.len()
        invariant
            i <= rows@.len(),
            spec_surfaces_of_rows(rows@.take(i as int)) == Some(surface_views(out@)),
        decreases rows@.len() - i,
    {
        proof {
            assert(rows@.take(i + 1).drop_last() =~= rows@.take(i as int));
            assert(rows@.take(i + 1).last() == rows@[i as int]);
        }
        let row = &rows[i];
        if row.len() < 2 {
            proof {
                lemma_surfaces_none_extends(rows@, i as int + 1);
            }
            return Err(row_error_value());
        }
        let pk = match &row[0] {
            SqlValue::Integer(v) => *v,
            _ => {
                proof {
                    lemma_surfaces_none_extends(rows@, i as int + 1);
                }
                return Err(row_error_value());
            },
        };
        let name: Option<String> = match &row[1] {
            SqlValue::Text(t) => Some(t.clone()),
            SqlValue::Null => None,
            _ => {
                proof {
                    lemma_surfaces_none_extends(rows@, i as int + 1);
                }
                return Err(row_error_value());
            },
        };
        let ghost before = out@;
        if pk == SHARE_SHEET_COLLECTION_PK {
            out.push(ShortcutSurface::ShareSheet);
        } else if pk == LIBRARY_ROOT_COLLECTION_PK {
            out.push(ShortcutSurface::LibraryRoot);
        } else {
            match name {
                Some(n) => out.push(ShortcutSurface::Folder(n)),
                None => {},
            }
        }
        proof {
            if out@.len() > before.len() {
                assert(surface_views(out@) =~= surface_views(before).push(surface_view(out@.last())));
            } else {
                assert(out@ == before);
            }
        }
        i = i + 1;
    }
    assert(rows@.take(rows@.len() as int) =~= rows@);
    Ok(out)
}

/// The surfaces collection rows give, or the error for a row that is not a
/// `(key, name)` row.
pub open spec fn spec_surfaces_result(rows: Seq<Vec<SqlValue>>) -> Result<Seq<SurfaceView>, MacosErrorView> {
    match spec_surfaces_of_rows(rows) {
        Some(s) => Ok(s),
        None => Err(row_error()),
    }
}

/// The view of a list of surfaces.
pub open spec fn surfaces_view(r: Result<Vec<ShortcutSurface>, MacosError>) -> Result<Seq<SurfaceView>, MacosErrorView> {
    match r {
        Ok(v) => Ok(surface_views(v@)),
        Err(e) => Err(e@),
    }
}

/// Where the shortcut with key `shortcut_pk` appears, in collection order.
pub fn load_shortcut_surfaces<D: ShortcutsDb>(store: &mut ShortcutStore<D>, shortcut_pk: i64) -> (r: Result<Vec<ShortcutSurface>, MacosError>)
    ensures
        called(old(store).calls@, final(store).calls@, SURFACES_SQL@, seq![SqlValueView::Integer(shortcut_pk)]),
        surfaces_view(r) == from_rows(last_answer(final(store).calls@), |rows: Seq<Vec<SqlValue>>| spec_surfaces_result(rows)),
{
    let params = vec![SqlValue::Integer(shortcut_pk)];
    assert(params_view(params@) =~= seq![SqlValueView::Integer(shortcut_pk)]);
    let rows = match store.query(SURFACES_SQL, &params) {
        Ok(rows) => rows,
        Err(e) => {
            return Err(e);
        },
    };
    surfaces_of_rows(&rows)
}

/// The list of strings a property list holds, as `plist::from_bytes`
/// reads it, or the reader's message.
pub uninterp spec fn plist_strings(bytes: Seq<u8>) -> Result<Seq<Seq<char>>, Seq<char>>;

/// Reads a property list of strings with `plist::from_bytes`. The contract
/// names the outcome.
#[verifier::external_body]
fn read_plist_strings(bytes: &[u8]) -> (r: Result<Vec<String>, String>)
    ensures
        match r {
            Ok(v) => plist_strings(bytes@) == Ok::<Seq<Seq<char>>, Seq<char>>(v@.map_values(|s: String| s@)),
            Err(m) => plist_strings(bytes@) == Err::<Seq<Seq<char>>, Seq<char>>(m@),
        },
{
    plist::from_bytes::<Vec<String>>(bytes).map_err(|e| e.to_string())
}

/// The binary property list of a list of strings, as
/// `plist::to_writer_binary` writes it, or the writer's message.
pub uninterp spec fn binary_plist(items: Seq<Seq<char>>) -> Result<Seq<u8>, Seq<char>>;

/// Writes a list of strings as a binary property list with
/// `plist::to_writer_binary`. The contract names the outcome, and states
/// that what it writes is an array with one string entry for each string, in
/// order: the serializer writes one value for each element of a sequence, so
/// `plist::from_bytes` reads as many back, and the same strings.
#[verifier::external_body]
fn write_binary_plist(items: &Vec<String>) -> (r: Result<Vec<u8>, String>)
    ensures
        match r {
            Ok(b) => binary_plist(items@.map_values(|s: String| s@)) == Ok::<Seq<u8>, Seq<char>>(b@)
                && plist_array_length(b@) == Ok::<nat, Seq<char>>(items@.len())
                && plist_strings(b@) == Ok::<Seq<Seq<char>>, Seq<char>>(items@.map_values(|s: String| s@)),
            Err(m) => binary_plist(items@.map_values(|s: String| s@)) == Err::<Seq<u8>, Seq<char>>(m@),
        },
{
    let mut buffer = Vec::new();
    plist::to_writer_binary(&mut buffer, items).map_err(|e| e.to_string())?;
    Ok(buffer)
}

/// The number of items of the array a property list holds, as
/// `plist::from_bytes` reads it, or the reader's message.
pub uninterp spec fn plist_array_length(bytes: Seq<u8>) -> Result<nat, Seq<char>>;

/// Reads a property list array with `plist::from_bytes` and counts its
/// items. The contract names the outcome.
#[verifier::external_body]
fn read_plist_array_len(bytes: &[u8]) -> (r: Result<usize, String>)
    ensures
        match r {
            Ok(n) => plist_array_length(bytes@) == Ok::<nat, Seq<char>>(n as nat),
            Err(m) => plist_array_length(bytes@) == Err::<nat, Seq<char>>(m@),
        },
{
    plist::from_bytes::<Vec<plist::Value>>(bytes).map(|a| a.len()).map_err(|e| e.to_string())
}

/// The policy a list of input classes stands for: one URL, text, image or
/// file class gives that policy; anything else accepts any input.
pub open spec fn spec_policy_of_classes(classes: Seq<Seq<char>>) -> ShortcutInputPolicy {
    if classes.len() == 1 && classes[0] == "WFURLContentItem"@ {
        ShortcutInputPolicy::Url
    } else if classes.len() == 1 && classes[0] == "WFStringContentItem"@ {
        ShortcutInputPolicy::Text
    } else if classes.len() == 1 && classes[0] == "WFImageContentItem"@ {
        ShortcutInputPolicy::Image
    } else if classes.len() == 1 && classes[0] == "WFGenericFileContentItem"@ {
        ShortcutInputPolicy::File
    } else {
        ShortcutInputPolicy::Any
    }
}

/// The policy a list of input classes stands for.
pub fn policy_of_classes(classes: &Vec<String>) -> (r: ShortcutInputPolicy)
    ensures
        r == spec_policy_of_classes(classes@.map_values(|s: String| s@)),
{
    if classes.len() != 1 {
        return ShortcutInputPolicy::Any;
    }
    let c = chars_of(classes[0].as_str());
    assert(classes@.map_values(|s: String| s@)[0] == c@);
    if chars_eq(c.as_slice(), chars_of("WFURLContentItem").as_slice()) {
        ShortcutInputPolicy::Url
    } else if chars_eq(c.as_slice(), chars_of("WFStringContentItem").as_slice()) {
        ShortcutInputPolicy::Text
    } else if chars_eq(c.as_slice(), chars_of("WFImageContentItem").as_slice()) {
        ShortcutInputPolicy::Image
    } else if chars_eq(c.as_slice(), chars_of("WFGenericFileContentItem").as_slice()) {
        ShortcutInputPolicy::File
    } else {
        ShortcutInputPolicy::Any
    }
}

/// The policy that stored input classes stand for, or the error when they
/// are no property list of strings.
pub open spec fn spec_decode_input_policy(bytes: Seq<u8>) -> Result<ShortcutInputPolicy, MacosErrorView> {
    match plist_strings(bytes) {
        Ok(classes) => Ok(spec_policy_of_classes(classes)),
        Err(m) => Err(MacosErrorView::Other("failed to decode shortcut input classes: "@ + m)),
    }
}

/// The view of a policy result.
pub open spec fn policy_result(r: Result<ShortcutInputPolicy, MacosError>) -> Result<ShortcutInputPolicy, MacosErrorView> {
    match r {
        Ok(p) => Ok(p),
        Err(e) => Err(e@),
    }
}

/// The policy that stored input classes stand for.
pub fn decode_input_policy(input_classes: &[u8]) -> (r: Result<ShortcutInputPolicy, MacosError>)
    ensures
        policy_result(r) == spec_decode_input_policy(input_classes@),
{
    match read_plist_strings(input_classes) {
        Ok(classes) => Ok(policy_of_classes(&classes)),
        Err(m) => {
            let mut msg = String::from_str("failed to decode shortcut input classes: ");
            msg.append(m.as_str());
            Err(MacosError::Other(msg))
        },
    }
}

/// The query for a shortcut's stored input classes.
pub const INPUT_CLASSES_SQL: &'static str = "SELECT ZINPUTCLASSESDATA FROM ZSHORTCUT WHERE Z_PK = ?1";

/// The policy the input-classes query's rows give: the stored classes'
/// policy, any input for NULL, or the error for no row or another kind of
/// value.
pub open spec fn spec_input_policy_of_rows(rows: Seq<Vec<SqlValue>>) -> Result<ShortcutInputPolicy, MacosErrorView> {
    if rows.len() == 0 || rows[0]@.len() == 0 {
        Err(no_rows_error())
    } else {
        match rows[0]@[0] {
            SqlValue::Blob(b) => spec_decode_input_policy(b@),
            SqlValue::Null => Ok(ShortcutInputPolicy::Any),
            _ => Err(row_error()),
        }
    }
}

/// The input policy stored for the shortcut with key `shortcut_pk`; a
/// shortcut without stored classes accepts any input.
pub fn load_shortcut_input_policy<D: ShortcutsDb>(store: &mut ShortcutStore<D>, shortcut_pk: i64) -> (r: Result<ShortcutInputPolicy, MacosError>)
    ensures
        called(old(store).calls@, final(store).calls@, INPUT_CLASSES_SQL@, seq![SqlValueView::Integer(shortcut_pk)]),
        policy_result(r) == from_rows(last_answer(final(store).calls@), |rows: Seq<Vec<SqlValue>>| spec_input_policy_of_rows(rows)),
{
    let params = vec![SqlValue::Integer(shortcut_pk)];
    assert(params_view(params@) =~= seq![SqlValueView::Integer(shortcut_pk)]);
    let rows = match store.query(INPUT_CLASSES_SQL, &params) {
        Ok(rows) => rows,
        Err(e) => {
            return Err(e);
        },
    };
    input_policy_of_rows(&rows)
}

/// The policy the input-classes query's rows give.
pub fn input_policy_of_rows(rows: &Vec<Vec<SqlValue>>) -> (r: Result<ShortcutInputPolicy, MacosError>)
    ensures
        policy_result(r) == spec_input_policy_of_rows(rows@),
{
    if rows.len() == 0 || rows[0].len() == 0 {
        return Err(MacosError::Other(String::from_str("Query returned no rows")));
    }
    match &rows[0][0] {
        SqlValue::Blob(b) => decode_input_policy(b.as_slice()),
        SqlValue::Null => Ok(ShortcutInputPolicy::Any),
        _ => Err(row_error_value()),
    }
}

/// The query for a shortcut's actions.
pub const PAYLOAD_SQL: &'static str = "SELECT ZDATA FROM ZSHORTCUTACTIONS WHERE ZSHORTCUT = ?1";

/// The actions the payload query's rows give: the stored bytes, the
/// property list of an empty array for NULL, or the error for no row or
/// another kind of value.
pub open spec fn spec_payload_of_rows(rows: Seq<Vec<SqlValue>>) -> Result<Seq<u8>, MacosErrorView> {
    if rows.len() == 0 || rows[0]@.len() == 0 {
        Err(no_rows_error())
    } else {
        match rows[0]@[0] {
            SqlValue::Blob(b) => Ok(b@),
            SqlValue::Null => match binary_plist(Seq::empty()) {
                Ok(b) => Ok(b),
                Err(m) => Err(MacosErrorView::Other("failed to encode empty shortcut actions plist: "@ + m)),
            },
            _ => Err(row_error()),
        }
    }
}

/// The stored actions of the shortcut with key `shortcut_pk`; a shortcut
/// without stored actions has an empty action list.
pub fn load_shortcut_payload<D: ShortcutsDb>(store: &mut ShortcutStore<D>, shortcut_pk: i64) -> (r: Result<Vec<u8>, MacosError>)
    ensures
        called(old(store).calls@, final(store).calls@, PAYLOAD_SQL@, seq![SqlValueView::Integer(shortcut_pk)]),
        result_view(r) == from_rows(last_answer(final(store).calls@), |rows: Seq<Vec<SqlValue>>| spec_payload_of_rows(rows)),
{
    let params = vec![SqlValue::Integer(shortcut_pk)];
    assert(params_view(params@) =~= seq![SqlValueView::Integer(shortcut_pk)]);
    let rows = match store.query(PAYLOAD_SQL, &params) {
        Ok(rows) => rows,
        Err(e) => {
            return Err(e);
        },
    };
    payload_of_rows(&rows)
}

/// The actions the payload query's rows give; for NULL, the bytes read back
/// as an array without items.
pub fn payload_of_rows(rows: &Vec<Vec<SqlValue>>) -> (r: Result<Vec<u8>, MacosError>)
    ensures
        result_view(r) == spec_payload_of_rows(rows@),
        rows@.len() > 0 && rows@[0]@.len() > 0 && rows@[0]@[0] is Null && r is Ok
            ==> plist_array_length(r->Ok_0@) == Ok::<nat, Seq<char>>(0),
{
    if rows.len() == 0 || rows[0].len() == 0 {
        return Err(MacosError::Other(String::from_str("Query returned no rows")));
    }
    match &rows[0][0] {
        SqlValue::Blob(b) => Ok(b.clone()),
        SqlValue::Null => {
            let empty: Vec<String> = Vec::new();
            assert(empty@.map_values(|s: String| s@) =~= Seq::<Seq<char>>::empty());
            match write_binary_plist(&empty) {
                Ok(bytes) => Ok(bytes),
                Err(m) => {
                    let mut msg = String::from_str("failed to encode empty shortcut actions plist: ");
                    msg.append(m.as_str());
                    Err(MacosError::Other(msg))
                },
            }
        },
        _ => Err(row_error_value()),
    }
}

/// The number of actions a compiled payload holds.
pub fn compiled_action_count(payload: &[u8]) -> (r: Result<usize, MacosError>)
    ensures
        match plist_array_length(payload@) {
            Ok(n) => r matches Ok(c) && c as nat == n,
            Err(m) => r matches Err(e) && e@ == MacosErrorView::Other("failed to count compiled shortcut actions: "@ + m),
        },
{
    match read_plist_array_len(payload) {
        Ok(n) => Ok(n),
        Err(m) => {
            let mut msg = String::from_str("failed to count compiled shortcut actions: ");
            msg.append(m.as_str());
            Err(MacosError::Other(msg))
        },
    }
}

/// The statement that renames a shortcut.
pub const RENAME_SQL: &'static str = r#"
        UPDATE ZSHORTCUT
        SET ZNAME = ?1
        WHERE ZWORKFLOWID = ?2
        "#;

/// Renames the shortcut with workflow id `workflow_id` to `new_name`.
pub fn rename_shortcut_name_by_workflow_id<D: ShortcutsDb>(store: &mut ShortcutStore<D>, workflow_id: &str, new_name: &str) -> (r: Result<(), MacosError>)
    ensures
        called(old(store).calls@, final(store).calls@, RENAME_SQL@, seq![SqlValueView::Text(new_name@), SqlValueView::Text(workflow_id@)]),
        unit_view(r) == done_result(last_answer(final(store).calls@)),
        answered(old(store).replies@, final(store).replies@, r),
{
    let params = vec![SqlValue::Text(String::from_str(new_name)), SqlValue::Text(String::from_str(workflow_id))];
    assert(params_view(params@) =~= seq![SqlValueView::Text(new_name@), SqlValueView::Text(workflow_id@)]);
    store.execute(RENAME_SQL, &params)
}

/// The input classes stored for a policy.
pub open spec fn spec_input_classes(policy: ShortcutInputPolicy) -> Seq<Seq<char>> {
    match policy {
        ShortcutInputPolicy::Any => seq![
            "WFAppContentItem"@, "WFAppStoreAppContentItem"@, "WFArticleContentItem"@, "WFContactContentItem"@,
            "WFDateContentItem"@, "WFEmailAddressContentItem"@, "WFFolderContentItem"@, "WFGenericFileContentItem"@,
            "WFImageContentItem"@, "WFiTunesProductContentItem"@, "WFLocationContentItem"@, "WFDCMapsLinkContentItem"@,
            "WFAVAssetContentItem"@, "WFPDFContentItem"@, "WFPhoneNumberContentItem"@, "WFRichTextContentItem"@,
            "WFSafariWebPageContentItem"@, "WFStringContentItem"@, "WFURLContentItem"@
        ],
        ShortcutInputPolicy::Url | ShortcutInputPolicy::Urls => seq!["WFURLContentItem"@],
        ShortcutInputPolicy::Text => seq!["WFStringContentItem"@],
        ShortcutInputPolicy::Image => seq!["WFImageContentItem"@],
        ShortcutInputPolicy::File => seq!["WFGenericFileContentItem"@],
    }
}

/// The input classes stored for a policy.
pub fn input_classes(policy: ShortcutInputPolicy) -> (r: Vec<String>)
    ensures
        r@.map_values(|s: String| s@) == spec_input_classes(policy),
{
    let names: Vec<&str> = match policy {
        ShortcutInputPolicy::Any => vec![
            "WFAppContentItem", "WFAppStoreAppContentItem", "WFArticleContentItem", "WFContactContentItem",
            "WFDateContentItem", "WFEmailAddressContentItem", "WFFolderContentItem", "WFGenericFileContentItem",
            "WFImageContentItem", "WFiTunesProductContentItem", "WFLocationContentItem", "WFDCMapsLinkContentItem",
            "WFAVAssetContentItem", "WFPDFContentItem", "WFPhoneNumberContentItem", "WFRichTextContentItem",
            "WFSafariWebPageContentItem", "WFStringContentItem", "WFURLContentItem",
        ],
        ShortcutInputPolicy::Url | ShortcutInputPolicy::Urls => vec!["WFURLContentItem"],
        ShortcutInputPolicy::Text => vec!["WFStringContentItem"],
        ShortcutInputPolicy::Image => vec!["WFImageContentItem"],
        ShortcutInputPolicy::File => vec!["WFGenericFileContentItem"],
    };
    let mut out: Vec<String> = Vec::new();
    let mut i: usize = 0;
    while i < names.len()
        invariant
            i <= names@.len(),
            out@.map_values(|s: String| s@) == names@.take(i as int).map_values(|s: &str| s@),
        decreases names@.len() - i,
    {
        let ghost before = out@;
        let item = String::from_str(names[i]);
        out.push(item);
        assert(out@.map_values(|s: String| s@) =~= before.map_values(|s: String| s@).push(names@[i as int]@));
        assert(names@.take(i + 1).map_values(|s: &str| s@) =~= names@.take(i as int).map_values(|s: &str| s@).push(names@[i as int]@));
        i = i + 1;
    }
    assert(names@.take(names@.len() as int) =~= names@);
    assert(out@.map_values(|s: String| s@) =~= spec_input_classes(policy));
    out
}

/// The policy stored input classes read back as: the policy itself, but
/// several URLs read back as one URL.
pub open spec fn stored_policy(policy: ShortcutInputPolicy) -> ShortcutInputPolicy {
    match policy {
        ShortcutInputPolicy::Urls => ShortcutInputPolicy::Url,
        p => p,
    }
}

/// The input classes of a policy stand for the policy again (several URLs
/// for one URL).
pub proof fn lemma_input_classes_policy(policy: ShortcutInputPolicy)
    ensures
        spec_policy_of_classes(spec_input_classes(policy)) == stored_policy(policy),
{
    reveal_strlit("WFURLContentItem");
    reveal_strlit("WFStringContentItem");
    reveal_strlit("WFImageContentItem");
    reveal_strlit("WFGenericFileContentItem");
    let url = "WFURLContentItem"@;
    let text = "WFStringContentItem"@;
    let image = "WFImageContentItem"@;
    let file = "WFGenericFileContentItem"@;
    assert(url.len() == 16 && text.len() == 19 && image.len() == 18 && file.len() == 24);
    assert(text != url);
    assert(image != url && image != text);
    assert(file != url && file != text && file != image);
    match policy {
        ShortcutInputPolicy::Any => {
            assert(spec_input_classes(policy).len() == 19);
        },
        _ => {},
    }
}

/// The stored form of a policy's input classes: a binary property list,
/// which decodes back to the policy (several URLs to one URL).
pub fn encode_input_classes(policy: ShortcutInputPolicy) -> (r: Result<Vec<u8>, MacosError>)
    ensures
        match binary_plist(spec_input_classes(policy)) {
            Ok(b) => r matches Ok(v) && v@ == b,
            Err(m) => r matches Err(e) && e@ == MacosErrorView::Other("failed to encode shortcut input classes: "@ + m),
        },
        r matches Ok(v) ==> spec_decode_input_policy(v@) == Ok::<ShortcutInputPolicy, MacosErrorView>(stored_policy(policy)),
{
    proof {
        lemma_input_classes_policy(policy);
    }
    let classes = input_classes(policy);
    match write_binary_plist(&classes) {
        Ok(b) => Ok(b),
        Err(m) => {
            let mut msg = String::from_str("failed to encode shortcut input classes: ");
            msg.append(m.as_str());
            Err(MacosError::Other(msg))
        },
    }
}

/// The statement that stores a shortcut's input classes.
pub const UPDATE_INPUT_CLASSES_SQL: &'static str = r#"
        UPDATE ZSHORTCUT
        SET ZINPUTCLASSESDATA = ?1
        WHERE Z_PK = ?2
        "#;

/// Stores the input classes of the shortcut with key `shortcut_pk`.
pub fn update_shortcut_input_classes<D: ShortcutsDb>(store: &mut ShortcutStore<D>, shortcut_pk: i64, input_classes: &[u8]) -> (r: Result<(), MacosError>)
    ensures
        called(old(store).calls@, final(store).calls@, UPDATE_INPUT_CLASSES_SQL@, seq![SqlValueView::Blob(input_classes@), SqlValueView::Integer(shortcut_pk)]),
        unit_view(r) == done_result(last_answer(final(store).calls@)),
        answered(old(store).replies@, final(store).replies@, r),
{
    let params = vec![SqlValue::Blob(slice_to_vec(input_classes)), SqlValue::Integer(shortcut_pk)];
    assert(params_view(params@) =~= seq![SqlValueView::Blob(input_classes@), SqlValueView::Integer(shortcut_pk)]);
    store.execute(UPDATE_INPUT_CLASSES_SQL, &params)
}

fn slice_to_vec(b: &[u8]) -> (r: Vec<u8>)
    ensures
        r@ == b@,
{
    let mut v: Vec<u8> = Vec::new();
    let mut i: usize = 0;
    while i < b.len()
        invariant
            i <= b@.len(),
            v@ == b@.take(i as int),
        decreases b@.len() - i,
    {
        v.push(b[i]);
        assert(v@ =~= b@.take(i + 1));
        i = i + 1;
    }
    assert(b@.take(b@.len() as int) =~= b@);
    v
}

/// How a shortcut's action count is described: `<n> actions`.
pub open spec fn spec_actions_description(n: usize) -> Seq<char> {
    decimal(n as nat) + " actions"@
}

/// How a shortcut's action count is described.
pub fn actions_description(n: usize) -> (r: String)
    ensures
        r@ == spec_actions_description(n),
{
    let mut s = String::new();
    push_decimal(&mut s, n as u128);
    s.append(" actions");
    s
}

/// The statement that stores a shortcut's actions.
pub const UPDATE_ACTIONS_DATA_SQL: &'static str = "UPDATE ZSHORTCUTACTIONS SET ZDATA = ?1 WHERE ZSHORTCUT = ?2";

/// The statement that stores a shortcut's action count and its description.
pub const UPDATE_ACTION_COUNT_SQL: &'static str = r#"
        UPDATE ZSHORTCUT
        SET
            ZACTIONCOUNT = ?1,
            ZACTIONSDESCRIPTION = ?2,
            ZWORKFLOWSUBTITLE = ?3
        WHERE Z_PK = ?4
        "#;

/// The statement that stores a shortcut's actions.
pub const WRITE_ACTIONS_DATA_SQL: &'static str = r#"
        UPDATE ZSHORTCUTACTIONS
        SET ZDATA = ?1
        WHERE ZSHORTCUT = ?2
        "#;

/// The statement that stores a shortcut's action count, description, input
/// classes and whether it reads shortcut input.
pub const WRITE_SHORTCUT_SQL: &'static str = r#"
        UPDATE ZSHORTCUT
        SET
            ZACTIONCOUNT = ?1,
            ZACTIONSDESCRIPTION = ?2,
            ZWORKFLOWSUBTITLE = ?3,
            ZINPUTCLASSESDATA = ?4,
            ZHASSHORTCUTINPUTVARIABLES = ?5
        WHERE Z_PK = ?6
        "#;

/// The calls after `before` are those of `steps` (text and parameters), in
/// order, as far as they went: each answered done but the last, which failed
/// when the run stopped short.
pub open spec fn ran_calls(before: Seq<DbCall>, after: Seq<DbCall>, steps: Seq<(Seq<char>, Seq<SqlValueView>)>) -> bool {
    let tail = after.skip(before.len() as int);
    &&& before.len() <= after.len()
    &&& after.take(before.len() as int) == before
    &&& tail.len() <= steps.len()
    &&& forall|i: int| 0 <= i < tail.len() ==> (#[trigger] tail[i]).sql == steps[i].0 && tail[i].params == steps[i].1
    &&& forall|i: int| 0 <= i < tail.len() - 1 ==> (#[trigger] tail[i]).answer is Done
    &&& 0 < tail.len() < steps.len() ==> tail.last().answer is Failed
}

/// What the calls after `before` give: nothing when none ran, else what the
/// last one answered.
pub open spec fn calls_outcome(before: Seq<DbCall>, after: Seq<DbCall>) -> Option<Result<(), MacosErrorView>> {
    if after.len() == before.len() {
        None
    } else {
        Some(done_result(after.last().answer))
    }
}

/// `r` is what a transaction gives: the error of its calls when they failed;
/// otherwise success when it started and committed, or the error with the
/// database's text.
pub open spec fn settled(outcome: Option<Result<(), MacosErrorView>>, last_reply: Option<Seq<char>>, r: Result<(), MacosError>) -> bool {
    match outcome {
        Some(Err(e)) => r matches Err(x) && x@ == e,
        _ => match last_reply {
            None => r is Ok && outcome is Some,
            Some(m) => r matches Err(x) && x@ == MacosErrorView::Other(m),
        },
    }
}

/// Runs two statements in one transaction, stopping at the first failure and
/// rolling back.
fn run_pair<D: ShortcutsDb>(store: &mut ShortcutStore<D>, sql1: &str, p1: &Vec<SqlValue>, sql2: &str, p2: &Vec<SqlValue>) -> (r: Result<(), MacosError>)
    ensures
        ran_calls(old(store).calls@, final(store).calls@, seq![(sql1@, params_view(p1@)), (sql2@, params_view(p2@))]),
        final(store).replies@.len() > old(store).replies@.len(),
        settled(calls_outcome(old(store).calls@, final(store).calls@), final(store).replies@.last(), r),
{
    let ghost calls0 = store.calls@;
    let ghost steps = seq![(sql1@, params_view(p1@)), (sql2@, params_view(p2@))];
    proof {
        assert(calls0.take(calls0.len() as int) =~= calls0);
        assert(calls0.skip(calls0.len() as int).len() == 0);
    }
    match store.begin() {
        Ok(()) => {},
        Err(e) => {
            return Err(e);
        },
    }
    let first = store.execute(sql1, p1);
    proof {
        assert(store.calls@.take(calls0.len() as int) =~= calls0);
        assert(store.calls@.skip(calls0.len() as int) =~= seq![store.calls@.last()]);
    }
    match first {
        Ok(()) => {},
        Err(e) => {
            store.rollback();
            return Err(e);
        },
    }
    let ghost calls1 = store.calls@;
    let second = store.execute(sql2, p2);
    proof {
        assert(store.calls@.take(calls0.len() as int) =~= calls0);
        assert(store.calls@.skip(calls0.len() as int) =~= seq![calls1.last(), store.calls@.last()]);
    }
    match second {
        Ok(()) => {},
        Err(e) => {
            store.rollback();
            return Err(e);
        },
    }
    store.commit()
}

/// Stores the actions of the shortcut with key `shortcut_pk`, with its action
/// count and description, in one transaction: the actions statement with the
/// payload and the key, then the count statement with the count, the
/// description twice and the key.
pub fn update_shortcut_actions_blob<D: ShortcutsDb>(store: &mut ShortcutStore<D>, shortcut_pk: i64, payload: &[u8], action_count: usize) -> (r: Result<(), MacosError>)
    requires
        action_count <= i64::MAX,
    ensures
        ran_calls(old(store).calls@, final(store).calls@, seq![
            (UPDATE_ACTIONS_DATA_SQL@, seq![SqlValueView::Blob(payload@), SqlValueView::Integer(shortcut_pk)]),
            (UPDATE_ACTION_COUNT_SQL@, seq![
                SqlValueView::Integer(action_count as i64),
                SqlValueView::Text(spec_actions_description(action_count)),
                SqlValueView::Text(spec_actions_description(action_count)),
                SqlValueView::Integer(shortcut_pk),
            ]),
        ]),
        settled(calls_outcome(old(store).calls@, final(store).calls@), final(store).replies@.last(), r),
{
    let p1 = vec![SqlValue::Blob(slice_to_vec(payload)), SqlValue::Integer(shortcut_pk)];
    let description = actions_description(action_count);
    let p2 = vec![
        SqlValue::Integer(action_count as i64),
        SqlValue::Text(description.clone()),
        SqlValue::Text(description),
        SqlValue::Integer(shortcut_pk),
    ];
    assert(params_view(p1@) =~= seq![SqlValueView::Blob(payload@), SqlValueView::Integer(shortcut_pk)]);
    assert(params_view(p2@) =~= seq![
        SqlValueView::Integer(action_count as i64),
        SqlValueView::Text(spec_actions_description(action_count)),
        SqlValueView::Text(spec_actions_description(action_count)),
        SqlValueView::Integer(shortcut_pk),
    ]);
    run_pair(store, UPDATE_ACTIONS_DATA_SQL, &p1, UPDATE_ACTION_COUNT_SQL, &p2)
}

/// The stored value of optional input classes: the bytes, or NULL.
pub open spec fn classes_param(input_classes: Option<Seq<u8>>) -> SqlValueView {
    match input_classes {
        Some(b) => SqlValueView::Blob(b),
        None => SqlValueView::Null,
    }
}

/// The view of optional bytes.
pub open spec fn opt_bytes(b: Option<&[u8]>) -> Option<Seq<u8>> {
    match b {
        Some(x) => Some(x@),
        None => None,
    }
}

/// Stores the actions of the shortcut with key `shortcut_pk` with its action
/// count and description, its input classes (none when `None`) and whether it
/// reads shortcut input, in one transaction: the actions statement with the
/// payload and the key, then the shortcut statement with the count, the
/// description twice, the classes, 1 or 0 and the key.
pub fn write_shortcut_payload<D: ShortcutsDb>(
    store: &mut ShortcutStore<D>,
    shortcut_pk: i64,
    payload: &[u8],
    action_count: usize,
    input_classes: Option<&[u8]>,
    has_shortcut_input_variables: bool,
) -> (r: Result<(), MacosError>)
    requires
        action_count <= i64::MAX,
    ensures
        ran_calls(old(store).calls@, final(store).calls@, seq![
            (WRITE_ACTIONS_DATA_SQL@, seq![SqlValueView::Blob(payload@), SqlValueView::Integer(shortcut_pk)]),
            (WRITE_SHORTCUT_SQL@, seq![
                SqlValueView::Integer(action_count as i64),
                SqlValueView::Text(spec_actions_description(action_count)),
                SqlValueView::Text(spec_actions_description(action_count)),
                classes_param(opt_bytes(input_classes)),
                SqlValueView::Integer(if has_shortcut_input_variables { 1i64 } else { 0i64 }),
                SqlValueView::Integer(shortcut_pk),
            ]),
        ]),
        settled(calls_outcome(old(store).calls@, final(store).calls@), final(store).replies@.last(), r),
{
    let p1 = vec![SqlValue::Blob(slice_to_vec(payload)), SqlValue::Integer(shortcut_pk)];
    let description = actions_description(action_count);
    let classes = match input_classes {
        Some(b) => SqlValue::Blob(slice_to_vec(b)),
        None => SqlValue::Null,
    };
    let flag: i64 = if has_shortcut_input_variables { 1 } else { 0 };
    let p2 = vec![
        SqlValue::Integer(action_count as i64),
        SqlValue::Text(description.clone()),
        SqlValue::Text(description),
        classes,
        SqlValue::Integer(flag),
        SqlValue::Integer(shortcut_pk),
    ];
    assert(params_view(p1@) =~= seq![SqlValueView::Blob(payload@), SqlValueView::Integer(shortcut_pk)]);
    assert(params_view(p2@) =~= seq![
        SqlValueView::Integer(action_count as i64),
        SqlValueView::Text(spec_actions_description(action_count)),
        SqlValueView::Text(spec_actions_description(action_count)),
        classes_param(opt_bytes(input_classes)),
        SqlValueView::Integer(if has_shortcut_input_variables { 1i64 } else { 0i64 }),
        SqlValueView::Integer(shortcut_pk),
    ]);
    run_pair(store, WRITE_ACTIONS_DATA_SQL, &p1, WRITE_SHORTCUT_SQL, &p2)
}

/// Whether the surfaces ask for the share sheet.
pub open spec fn wants_share_sheet(surfaces: Seq<SurfaceView>) -> bool {
    exists|i: int| 0 <= i < surfaces.len() && #[trigger] surfaces[i] == SurfaceView::ShareSheet
}

/// The folders the surfaces name, in order.
pub open spec fn wanted_folders(surfaces: Seq<SurfaceView>) -> Seq<Seq<char>>
    decreases surfaces.len(),
{
    if surfaces.len() == 0 {
        Seq::empty()
    } else {
        let r = wanted_folders(surfaces.drop_last());
        match surfaces.last() {
            SurfaceView::Folder(n) => r.push(n),
            _ => r,
        }
    }
}

/// What the surfaces ask for: the share sheet or not, and the folders named.
pub fn surface_plan(surfaces: &Vec<ShortcutSurface>) -> (r: (bool, Vec<String>))
    ensures
        r.0 == wants_share_sheet(surface_views(surfaces@)),
        r.1@.map_values(|s: String| s@) == wanted_folders(surface_views(surfaces@)),
{
    let ghost views = surface_views(surfaces@);
    let mut share = false;
    let mut folders: Vec<String> = Vec::new();
    let mut i: usize = 0;
    while i < surfaces.len()
        invariant
            i <= surfaces@.len(),
            views == surface_views(surfaces@),
            share == wants_share_sheet(views.take(i as int)),
            folders@.map_values(|s: String| s@) == wanted_folders(views.take(i as int)),
        decreases surfaces@.len() - i,
    {
        let ghost t = views.take(i + 1);
        proof {
            assert(t.drop_last() =~= views.take(i as int));
            assert(t.last() == views[i as int]);
            assert(views[i as int] == surface_view(surfaces@[i as int]));
        }
        match &surfaces[i] {
            ShortcutSurface::ShareSheet => {
                share = true;
                assert(t[i as int] == SurfaceView::ShareSheet);
            },
            ShortcutSurface::Folder(n) => {
                let ghost before = folders@;
                folders.push(n.clone());
                assert(folders@.map_values(|s: String| s@) =~= before.map_values(|s: String| s@).push(n@));
            },
            ShortcutSurface::LibraryRoot => {},
        }
        proof {
            if share {
                if !wants_share_sheet(views.take(i as int)) {
                    assert(t[i as int] == SurfaceView::ShareSheet);
                } else {
                    let k = choose|k: int| 0 <= k < views.take(i as int).len() && #[trigger] views.take(i as int)[k] == SurfaceView::ShareSheet;
                    assert(t[k] == views.take(i as int)[k]);
                }
            } else {
                assert forall|k: int| 0 <= k < t.len() implies #[trigger] t[k] != SurfaceView::ShareSheet by {
                    if k < i {
                        assert(t[k] == views.take(i as int)[k]);
                    }
                }
            }
        }
        i = i + 1;
    }
    proof {
        assert(views.take(surfaces@.len() as int) =~= views);
    }
    (share, folders)
}

/// The query for whether a collection holds a shortcut.
pub const RELATION_EXISTS_SQL: &'static str = r#"
            SELECT 1
            FROM Z_4SHORTCUTS
            WHERE Z_4PARENTS1 = ?1
              AND Z_7SHORTCUTS = ?2
            LIMIT 1
            "#;

/// The query for the next order index in a collection.
pub const NEXT_ORDER_INDEX_SQL: &'static str = "SELECT COALESCE(MAX(Z_FOK_7SHORTCUTS) + 1, 0) FROM Z_4SHORTCUTS WHERE Z_4PARENTS1 = ?1";

/// The statement that puts a shortcut in a collection at an order index.
pub const INSERT_RELATION_SQL: &'static str = r#"
        INSERT INTO Z_4SHORTCUTS (Z_4PARENTS1, Z_7SHORTCUTS, Z_FOK_7SHORTCUTS)
        VALUES (?1, ?2, ?3)
        "#;

/// The query for a folder's collection by name.
pub const FOLDER_BY_NAME_SQL: &'static str = "SELECT Z_PK FROM ZCOLLECTION WHERE ZNAME = ?1";

/// The statement that takes a shortcut out of the share sheet.
pub const DELETE_SHARE_SHEET_SQL: &'static str = r#"
        DELETE FROM Z_4SHORTCUTS
        WHERE Z_7SHORTCUTS = ?1
          AND Z_4PARENTS1 = 2
        "#;

/// The statement that takes a shortcut out of every named folder.
pub const DELETE_FOLDERS_SQL: &'static str = r#"
        DELETE FROM Z_4SHORTCUTS
        WHERE Z_7SHORTCUTS = ?1
          AND Z_4PARENTS1 IN (
              SELECT Z_PK
              FROM ZCOLLECTION
              WHERE ZNAME IS NOT NULL
          )
        "#;

/// The statement that takes a shortcut out of the library's root.
pub const DELETE_LIBRARY_ROOT_SQL: &'static str = r#"
        DELETE FROM Z_4SHORTCUTS
        WHERE Z_7SHORTCUTS = ?1
          AND Z_4PARENTS1 = 6
        "#;

/// The order index the next-index query answered, when it is a number.
pub open spec fn next_index(a: DbAnswer) -> Option<i64> {
    match a {
        DbAnswer::Rows(rows) => match spec_optional_integer(rows) {
            Ok(Some(v)) => Some(v),
            _ => None,
        },
        _ => None,
    }
}

/// The calls that put shortcut `s` in collection `c`, as far as they went:
/// whether the collection holds it; when that answers no row, the next order
/// index in the collection; and when that is a number, the insertion of the
/// shortcut at that index.
pub open spec fn relation_calls(calls: Seq<DbCall>, c: i64, s: i64) -> bool {
    &&& 1 <= calls.len() <= 3
    &&& calls[0].sql == RELATION_EXISTS_SQL@
    &&& calls[0].params == seq![SqlValueView::Integer(c), SqlValueView::Integer(s)]
    &&& (calls.len() > 1 <==> (calls[0].answer matches DbAnswer::Rows(rows) && rows.len() == 0))
    &&& calls.len() > 1 ==> calls[1].sql == NEXT_ORDER_INDEX_SQL@ && calls[1].params == seq![SqlValueView::Integer(c)]
    &&& (calls.len() > 2 <==> (calls.len() > 1 && next_index(calls[1].answer) is Some))
    &&& calls.len() > 2 ==> calls[2].sql == INSERT_RELATION_SQL@ && calls[2].params == seq![
        SqlValueView::Integer(c),
        SqlValueView::Integer(s),
        SqlValueView::Integer(next_index(calls[1].answer)->Some_0),
    ]
}

/// What those calls give: done when the collection already holds the
/// shortcut or the insertion is done, else the error.
pub open spec fn relation_result(calls: Seq<DbCall>) -> Result<(), MacosErrorView> {
    match calls[0].answer {
        DbAnswer::Rows(rows) => if rows.len() > 0 {
            Ok(())
        } else {
            match calls[1].answer {
                DbAnswer::Rows(r2) => match spec_optional_integer(r2) {
                    Ok(Some(_)) => done_result(calls[2].answer),
                    Ok(None) => Err(row_error()),
                    Err(e) => Err(e),
                },
                DbAnswer::Failed(m) => Err(MacosErrorView::Other(m)),
                DbAnswer::Done => Err(row_error()),
            }
        },
        DbAnswer::Failed(m) => Err(MacosErrorView::Other(m)),
        DbAnswer::Done => Err(row_error()),
    }
}

/// Puts the shortcut `shortcut_pk` at the end of the collection
/// `collection_pk`, unless it is already there.
fn insert_shortcut_relation<D: ShortcutsDb>(store: &mut ShortcutStore<D>, collection_pk: i64, shortcut_pk: i64) -> (r: Result<(), MacosError>)
    ensures
        final(store).calls@.len() > old(store).calls@.len(),
        final(store).calls@.take(old(store).calls@.len() as int) == old(store).calls@,
        relation_calls(final(store).calls@.skip(old(store).calls@.len() as int), collection_pk, shortcut_pk),
        unit_view(r) == relation_result(final(store).calls@.skip(old(store).calls@.len() as int)),
        final(store).replies@.len() >= old(store).replies@.len(),
{
    let ghost before = store.calls@;
    let p = vec![SqlValue::Integer(collection_pk), SqlValue::Integer(shortcut_pk)];
    assert(params_view(p@) =~= seq![SqlValueView::Integer(collection_pk), SqlValueView::Integer(shortcut_pk)]);
    let first = store.query(RELATION_EXISTS_SQL, &p);
    let ghost c1 = store.calls@.last();
    proof {
        assert(store.calls@.take(before.len() as int) =~= before);
        assert(store.calls@.skip(before.len() as int) =~= seq![c1]);
    }
    let found = match first {
        Ok(rows) => rows.len() > 0,
        Err(e) => {
            return Err(e);
        },
    };
    if found {
        return Ok(());
    }
    let q = vec![SqlValue::Integer(collection_pk)];
    assert(params_view(q@) =~= seq![SqlValueView::Integer(collection_pk)]);
    let second = store.query(NEXT_ORDER_INDEX_SQL, &q);
    let ghost c2 = store.calls@.last();
    proof {
        assert(store.calls@.take(before.len() as int) =~= before);
        assert(store.calls@.skip(before.len() as int) =~= seq![c1, c2]);
    }
    let rows = match second {
        Ok(rows) => rows,
        Err(e) => {
            return Err(e);
        },
    };
    let order_index = match optional_integer(&rows) {
        Ok(Some(v)) => v,
        Ok(None) => {
            return Err(row_error_value());
        },
        Err(e) => {
            return Err(e);
        },
    };
    let params = vec![SqlValue::Integer(collection_pk), SqlValue::Integer(shortcut_pk), SqlValue::Integer(order_index)];
    assert(params_view(params@) =~= seq![
        SqlValueView::Integer(collection_pk),
        SqlValueView::Integer(shortcut_pk),
        SqlValueView::Integer(order_index),
    ]);
    let r = store.execute(INSERT_RELATION_SQL, &params);
    proof {
        let c3 = store.calls@.last();
        assert(store.calls@.take(before.len() as int) =~= before);
        assert(store.calls@.skip(before.len() as int) =~= seq![c1, c2, c3]);
    }
    r
}

/// The collection key the folder query's rows give: the first row's key, or
/// the error when there is no row.
pub open spec fn spec_folder_pk(rows: Seq<Vec<SqlValue>>, name: Seq<char>) -> Result<i64, MacosErrorView> {
    if rows.len() == 0 {
        Err(MacosErrorView::Other("shortcut folder not found: "@ + name))
    } else if rows[0]@.len() == 0 {
        Err(row_error())
    } else {
        match rows[0]@[0] {
            SqlValue::Integer(v) => Ok(v),
            _ => Err(row_error()),
        }
    }
}

/// The collection key of the folder named `folder_name`.
fn lookup_collection_pk<D: ShortcutsDb>(store: &mut ShortcutStore<D>, folder_name: &str) -> (r: Result<i64, MacosError>)
    ensures
        called(old(store).calls@, final(store).calls@, FOLDER_BY_NAME_SQL@, seq![SqlValueView::Text(folder_name@)]),
        result_view(r) == from_rows(last_answer(final(store).calls@), |rows: Seq<Vec<SqlValue>>| spec_folder_pk(rows, folder_name@)),
        final(store).replies@.len() >= old(store).replies@.len(),
{
    let p = vec![SqlValue::Text(String::from_str(folder_name))];
    assert(params_view(p@) =~= seq![SqlValueView::Text(folder_name@)]);
    let rows = match store.query(FOLDER_BY_NAME_SQL, &p) {
        Ok(rows) => rows,
        Err(e) => {
            return Err(e);
        },
    };
    if rows.len() == 0 {
        let mut m = String::from_str("shortcut folder not found: ");
        m.append(folder_name);
        return Err(MacosError::Other(m));
    }
    if rows[0].len() == 0 {
        return Err(row_error_value());
    }
    match &rows[0][0] {
        SqlValue::Integer(v) => Ok(*v),
        _ => Err(row_error_value()),
    }
}

/// The collection key a folder lookup's answer gives.
pub open spec fn folder_lookup(a: DbAnswer, name: Seq<char>) -> Result<i64, MacosErrorView> {
    from_rows(a, |rows: Seq<Vec<SqlValue>>| spec_folder_pk(rows, name))
}

/// The calls that put shortcut `s` in the folder named `name`, as far as they
/// went: the lookup of the folder, and when it gives a key, the calls that put
/// the shortcut in that collection.
pub open spec fn folder_relation_calls(calls: Seq<DbCall>, name: Seq<char>, s: i64) -> bool {
    &&& calls.len() >= 1
    &&& calls[0].sql == FOLDER_BY_NAME_SQL@
    &&& calls[0].params == seq![SqlValueView::Text(name)]
    &&& match folder_lookup(calls[0].answer, name) {
        Ok(pk) => relation_calls(calls.skip(1), pk, s),
        Err(_) => calls.len() == 1,
    }
}

/// What those calls give: the lookup's error, or what putting the shortcut
/// in the collection gives.
pub open spec fn folder_relation_result(calls: Seq<DbCall>, name: Seq<char>) -> Result<(), MacosErrorView> {
    match folder_lookup(calls[0].answer, name) {
        Ok(_) => relation_result(calls.skip(1)),
        Err(e) => Err(e),
    }
}

/// A step of putting a shortcut where it belongs: a statement that takes it
/// out of collections, putting it in a collection, or putting it in a folder
/// named so.
pub enum PlacementStep {
    Clear(&'static str),
    Relation(i64),
    Folder(String),
}

/// The value of a [`PlacementStep`].
pub enum PlacementStepView {
    Clear(Seq<char>),
    Relation(i64),
    Folder(Seq<char>),
}

impl View for PlacementStep {
    type V = PlacementStepView;

    open spec fn view(&self) -> PlacementStepView {
        match self {
            PlacementStep::Clear(sql) => PlacementStepView::Clear(sql@),
            PlacementStep::Relation(c) => PlacementStepView::Relation(*c),
            PlacementStep::Folder(n) => PlacementStepView::Folder(n@),
        }
    }
}

/// The calls of one step for shortcut `s`, as far as they went.
pub open spec fn step_calls(calls: Seq<DbCall>, step: PlacementStepView, s: i64) -> bool {
    match step {
        PlacementStepView::Clear(sql) => calls.len() == 1 && calls[0].sql == sql && calls[0].params == seq![SqlValueView::Integer(s)],
        PlacementStepView::Relation(c) => relation_calls(calls, c, s),
        PlacementStepView::Folder(name) => folder_relation_calls(calls, name, s),
    }
}

/// What the calls of one step give.
pub open spec fn step_result(calls: Seq<DbCall>, step: PlacementStepView) -> Result<(), MacosErrorView> {
    match step {
        PlacementStepView::Clear(_) => done_result(calls[0].answer),
        PlacementStepView::Relation(_) => relation_result(calls),
        PlacementStepView::Folder(name) => folder_relation_result(calls, name),
    }
}

/// The calls of the parts, one after the other.
pub open spec fn joined(parts: Seq<Seq<DbCall>>) -> Seq<DbCall>
    decreases parts.len(),
{
    if parts.len() == 0 {
        Seq::empty()
    } else {
        joined(parts.drop_last()) + parts.last()
    }
}

/// The parts are the calls of the steps, in order, as far as they went: each
/// step done but the last, which failed when the run stopped short.
pub open spec fn steps_went(parts: Seq<Seq<DbCall>>, steps: Seq<PlacementStepView>, s: i64) -> bool {
    &&& parts.len() <= steps.len()
    &&& forall|i: int| 0 <= i < parts.len() ==> step_calls(#[trigger] parts[i], steps[i], s)
    &&& forall|i: int| 0 <= i < parts.len() - 1 ==> step_result(#[trigger] parts[i], steps[i]) is Ok
    &&& 0 < parts.len() < steps.len() ==> step_result(parts.last(), steps[parts.len() - 1]) is Err
}

/// What the steps gave: nothing when none ran, else what the last one gave.
pub open spec fn steps_outcome(parts: Seq<Seq<DbCall>>, steps: Seq<PlacementStepView>) -> Option<Result<(), MacosErrorView>> {
    if parts.len() == 0 {
        None
    } else {
        Some(step_result(parts.last(), steps[parts.len() - 1]))
    }
}

/// The steps ran for shortcut `s` in one transaction after the calls
/// `before`, as far as they went, and `r` is what the transaction gives.
pub open spec fn ran_steps(
    before: Seq<DbCall>,
    after: Seq<DbCall>,
    steps: Seq<PlacementStepView>,
    s: i64,
    last_reply: Option<Seq<char>>,
    r: Result<(), MacosError>,
) -> bool {
    &&& before.len() <= after.len()
    &&& after.take(before.len() as int) == before
    &&& exists|parts: Seq<Seq<DbCall>>|
        #[trigger] joined(parts) == after.skip(before.len() as int)
            && steps_went(parts, steps, s)
            && settled(steps_outcome(parts, steps), last_reply, r)
}

/// Runs one step.
fn run_step<D: ShortcutsDb>(store: &mut ShortcutStore<D>, step: &PlacementStep, shortcut_pk: i64) -> (r: Result<(), MacosError>)
    ensures
        final(store).calls@.len() > old(store).calls@.len(),
        final(store).calls@.take(old(store).calls@.len() as int) == old(store).calls@,
        step_calls(final(store).calls@.skip(old(store).calls@.len() as int), step@, shortcut_pk),
        unit_view(r) == step_result(final(store).calls@.skip(old(store).calls@.len() as int), step@),
        final(store).replies@.len() >= old(store).replies@.len(),
{
    let ghost before = store.calls@;
    match step {
        PlacementStep::Clear(sql) => {
            let p = vec![SqlValue::Integer(shortcut_pk)];
            assert(params_view(p@) =~= seq![SqlValueView::Integer(shortcut_pk)]);
            let r = store.execute(sql, &p);
            assert(store.calls@.take(before.len() as int) =~= before);
            assert(store.calls@.skip(before.len() as int) =~= seq![store.calls@.last()]);
            r
        },
        PlacementStep::Relation(c) => insert_shortcut_relation(store, *c, shortcut_pk),
        PlacementStep::Folder(name) => {
            let found = lookup_collection_pk(store, name.as_str());
            let ghost c1 = store.calls@.last();
            let ghost mid = store.calls@;
            proof {
                assert(mid.take(before.len() as int) =~= before);
                assert(mid.skip(before.len() as int) =~= seq![c1]);
            }
            let collection_pk = match found {
                Ok(pk) => pk,
                Err(e) => {
                    return Err(e);
                },
            };
            let r = insert_shortcut_relation(store, collection_pk, shortcut_pk);
            proof {
                let all = store.calls@;
                assert(all.take(before.len() as int) =~= before);
                assert(all.skip(before.len() as int).skip(1) =~= all.skip(mid.len() as int));
                assert(all.skip(before.len() as int)[0] == c1);
            }
            r
        },
    }
}

/// Runs the steps for shortcut `shortcut_pk` in one transaction, stopping at
/// the first that fails and rolling back.
fn run_steps<D: ShortcutsDb>(store: &mut ShortcutStore<D>, steps: &Vec<PlacementStep>, shortcut_pk: i64) -> (r: Result<(), MacosError>)
    requires
        steps@.len() > 0,
    ensures
        final(store).replies@.len() > old(store).replies@.len(),
        ran_steps(old(store).calls@, final(store).calls@, steps@.map_values(|x: PlacementStep| x@), shortcut_pk, final(store).replies@.last(), r),
{
    let ghost before = store.calls@;
    let ghost views = steps@.map_values(|x: PlacementStep| x@);
    let ghost mut parts: Seq<Seq<DbCall>> = Seq::empty();
    proof {
        assert(before.take(before.len() as int) =~= before);
        assert(before.skip(before.len() as int) =~= joined(parts));
    }
    match store.begin() {
        Ok(()) => {},
        Err(e) => {
            assert(joined(parts) == store.calls@.skip(before.len() as int));
            return Err(e);
        },
    }
    let mut i: usize = 0;
    while i < steps.len()
        invariant
            i <= steps@.len(),
            views == steps@.map_values(|x: PlacementStep| x@),
            before == old(store).calls@,
            parts.len() == i,
            before.len() <= store.calls@.len(),
            store.calls@.take(before.len() as int) == before,
            joined(parts) == store.calls@.skip(before.len() as int),
            forall|j: int| 0 <= j < parts.len() ==> step_calls(#[trigger] parts[j], views[j], shortcut_pk),
            forall|j: int| 0 <= j < parts.len() ==> step_result(#[trigger] parts[j], views[j]) is Ok,
            store.replies@.len() > old(store).replies@.len(),
        decreases steps@.len() - i,
    {
        let ghost prev = store.calls@;
        let done = run_step(store, &steps[i], shortcut_pk);
        proof {
            let part = store.calls@.skip(prev.len() as int);
            let next = parts.push(part);
            assert(next.drop_last() =~= parts);
            assert(store.calls@.take(before.len() as int) =~= prev.take(before.len() as int));
            assert(store.calls@.skip(before.len() as int) =~= prev.skip(before.len() as int) + part);
            assert(joined(next) == store.calls@.skip(before.len() as int));
            assert(views[i as int] == steps@[i as int]@);
            parts = next;
        }
        match done {
            Ok(()) => {},
            Err(e) => {
                store.rollback();
                assert(steps_went(parts, views, shortcut_pk));
                assert(settled(steps_outcome(parts, views), store.replies@.last(), Err::<(), MacosError>(e)));
                assert(joined(parts) == store.calls@.skip(before.len() as int));
                return Err(e);
            },
        }
        i = i + 1;
    }
    let r = store.commit();
    assert(steps_went(parts, views, shortcut_pk));
    assert(steps_outcome(parts, views) == Some(Ok::<(), MacosErrorView>(())));
    assert(settled(steps_outcome(parts, views), store.replies@.last(), r));
    assert(joined(parts) == store.calls@.skip(before.len() as int));
    r
}

/// Puts the shortcut `shortcut_pk` in the collection `collection_pk` (at the
/// end, at the next order index that collection answers), unless it is
/// already there, in one transaction.
pub fn ensure_shortcut_relation<D: ShortcutsDb>(store: &mut ShortcutStore<D>, shortcut_pk: i64, collection_pk: i64) -> (r: Result<(), MacosError>)
    ensures
        final(store).replies@.len() > old(store).replies@.len(),
        ran_steps(old(store).calls@, final(store).calls@, seq![PlacementStepView::Relation(collection_pk)], shortcut_pk, final(store).replies@.last(), r),
{
    let steps = vec![PlacementStep::Relation(collection_pk)];
    assert(steps@.map_values(|x: PlacementStep| x@) =~= seq![PlacementStepView::Relation(collection_pk)]);
    run_steps(store, &steps, shortcut_pk)
}

/// Puts the shortcut `shortcut_pk` in the folder named `folder_name` (at the
/// end), unless it is already there, in one transaction; a folder that is not
/// there is an error.
pub fn ensure_shortcut_folder_relation<D: ShortcutsDb>(store: &mut ShortcutStore<D>, shortcut_pk: i64, folder_name: &str) -> (r: Result<(), MacosError>)
    ensures
        final(store).replies@.len() > old(store).replies@.len(),
        ran_steps(old(store).calls@, final(store).calls@, seq![PlacementStepView::Folder(folder_name@)], shortcut_pk, final(store).replies@.last(), r),
{
    let steps = vec![PlacementStep::Folder(String::from_str(folder_name))];
    assert(steps@.map_values(|x: PlacementStep| x@) =~= seq![PlacementStepView::Folder(folder_name@)]);
    run_steps(store, &steps, shortcut_pk)
}

/// The steps that make a shortcut appear where asked: out of the share sheet,
/// its named folders and the root; back into the root; into the share sheet
/// when asked; then into each folder named, in order.
pub open spec fn placement_steps(want_share: bool, folders: Seq<Seq<char>>) -> Seq<PlacementStepView> {
    seq![
        PlacementStepView::Clear(DELETE_SHARE_SHEET_SQL@),
        PlacementStepView::Clear(DELETE_FOLDERS_SQL@),
        PlacementStepView::Clear(DELETE_LIBRARY_ROOT_SQL@),
        PlacementStepView::Relation(LIBRARY_ROOT_COLLECTION_PK),
    ] + (if want_share {
        seq![PlacementStepView::Relation(SHARE_SHEET_COLLECTION_PK)]
    } else {
        Seq::empty()
    }) + folders.map_values(|n: Seq<char>| PlacementStepView::Folder(n))
}

/// The steps for a plan.
fn placement_plan(want_share: bool, folders: &Vec<String>) -> (r: Vec<PlacementStep>)
    ensures
        r@.map_values(|x: PlacementStep| x@) == placement_steps(want_share, folders@.map_values(|s: String| s@)),
{
    let mut out: Vec<PlacementStep> = vec![
        PlacementStep::Clear(DELETE_SHARE_SHEET_SQL),
        PlacementStep::Clear(DELETE_FOLDERS_SQL),
        PlacementStep::Clear(DELETE_LIBRARY_ROOT_SQL),
        PlacementStep::Relation(LIBRARY_ROOT_COLLECTION_PK),
    ];
    if want_share {
        out.push(PlacementStep::Relation(SHARE_SHEET_COLLECTION_PK));
    }
    let ghost head = out@.map_values(|x: PlacementStep| x@);
    proof {
        assert(head =~= seq![
            PlacementStepView::Clear(DELETE_SHARE_SHEET_SQL@),
            PlacementStepView::Clear(DELETE_FOLDERS_SQL@),
            PlacementStepView::Clear(DELETE_LIBRARY_ROOT_SQL@),
            PlacementStepView::Relation(LIBRARY_ROOT_COLLECTION_PK),
        ] + (if want_share {
            seq![PlacementStepView::Relation(SHARE_SHEET_COLLECTION_PK)]
        } else {
            Seq::empty()
        }));
    }
    let ghost names = folders@.map_values(|s: String| s@);
    let mut i: usize = 0;
    while i < folders.len()
        invariant
            i <= folders@.len(),
            names == folders@.map_values(|s: String| s@),
            out@.map_values(|x: PlacementStep| x@) == head + names.take(i as int).map_values(|n: Seq<char>| PlacementStepView::Folder(n)),
        decreases folders@.len() - i,
    {
        let ghost before = out@;
        out.push(PlacementStep::Folder(folders[i].clone()));
        proof {
            assert(names.take(i + 1) =~= names.take(i as int).push(names[i as int]));
            assert(names.take(i + 1).map_values(|n: Seq<char>| PlacementStepView::Folder(n))
                =~= names.take(i as int).map_values(|n: Seq<char>| PlacementStepView::Folder(n)).push(PlacementStepView::Folder(names[i as int])));
            assert(out@.map_values(|x: PlacementStep| x@) =~= before.map_values(|x: PlacementStep| x@).push(PlacementStepView::Folder(names[i as int])));
        }
        i = i + 1;
    }
    assert(names.take(folders@.len() as int) =~= names);
    out
}

/// Makes the shortcut `shortcut_pk` appear exactly where `surfaces` say, in
/// one transaction: it leaves the share sheet, its folders and the root, then
/// goes back to the root, to the share sheet when asked, and to each folder
/// named; a folder that is not there is an error.
pub fn sync_shortcut_surfaces<D: ShortcutsDb>(store: &mut ShortcutStore<D>, shortcut_pk: i64, surfaces: &Vec<ShortcutSurface>) -> (r: Result<(), MacosError>)
    ensures
        final(store).replies@.len() > old(store).replies@.len(),
        ran_steps(
            old(store).calls@,
            final(store).calls@,
            placement_steps(wants_share_sheet(surface_views(surfaces@)), wanted_folders(surface_views(surfaces@))),
            shortcut_pk,
            final(store).replies@.last(),
            r,
        ),
{
    let (want_share, folders) = surface_plan(surfaces);
    let steps = placement_plan(want_share, &folders);
    assert(steps@.map_values(|x: PlacementStep| x@).len() >= 4);
    run_steps(store, &steps, shortcut_pk)
}

} // verus!
