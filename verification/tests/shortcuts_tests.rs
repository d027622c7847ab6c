use adapter_macos::shortcuts::{
    compiled_action_count, decode_input_policy, encode_input_classes, ensure_shortcut_folder_relation,
    ensure_shortcut_relation, find_latest_shortcut_after_pk, find_shortcut, list_shortcuts,
    load_shortcut_input_policy, load_shortcut_payload, load_shortcut_surfaces, pick_by_name,
    input_policy_of_rows, payload_of_rows, rename_shortcut_name_by_workflow_id, surface_plan, sync_shortcut_surfaces, write_shortcut_payload,
    ShortcutInputPolicy, ShortcutRecord, ShortcutSelector, ShortcutStore, ShortcutSurface, ShortcutsDb,
    SqlValue,
};
use rusqlite::types::Value;
use rusqlite::Connection;
use tempfile::TempDir;

struct Db {
    conn: Connection,
}

fn to_sql(values: &[SqlValue]) -> Vec<Value> {
    values
        .iter()
        .map(|v| match v {
            SqlValue::Null => Value::Null,
            SqlValue::Integer(i) => Value::Integer(*i),
            SqlValue::Text(t) => Value::Text(t.clone()),
            SqlValue::Blob(b) => Value::Blob(b.clone()),
        })
        .collect()
}

impl ShortcutsDb for Db {
    fn execute(&mut self, sql: &str, params: &Vec<SqlValue>) -> Result<(), String> {
        self.conn.execute(sql, rusqlite::params_from_iter(to_sql(params))).map(|_| ()).map_err(|e| e.to_string())
    }

    fn query(&mut self, sql: &str, params: &Vec<SqlValue>) -> Result<Vec<Vec<SqlValue>>, String> {
        let mut stmt = self.conn.prepare(sql).map_err(|e| e.to_string())?;
        let columns = stmt.column_count();
        let rows = stmt
            .query_map(rusqlite::params_from_iter(to_sql(params)), |row| {
                (0..columns)
                    .map(|i| {
                        row.get::<_, Value>(i).map(|v| match v {
                            Value::Null => SqlValue::Null,
                            Value::Integer(i) => SqlValue::Integer(i),
                            Value::Real(f) => SqlValue::Text(f.to_string()),
                            Value::Text(t) => SqlValue::Text(t),
                            Value::Blob(b) => SqlValue::Blob(b),
                        })
                    })
                    .collect::<Result<Vec<_>, _>>()
            })
            .map_err(|e| e.to_string())?;
        rows.collect::<Result<Vec<_>, _>>().map_err(|e| e.to_string())
    }

    fn begin(&mut self) -> Result<(), String> {
        self.conn.execute_batch("BEGIN").map_err(|e| e.to_string())
    }

    fn commit(&mut self) -> Result<(), String> {
        self.conn.execute_batch("COMMIT").map_err(|e| e.to_string())
    }

    fn rollback(&mut self) {
        let _ = self.conn.execute_batch("ROLLBACK");
    }
}

fn store(db_path: &str) -> ShortcutStore<Db> {
    ShortcutStore::new(Db { conn: Connection::open(db_path).unwrap() })
}

fn fixture_db(dir: &TempDir) -> String {
    let path = dir.path().join("Shortcuts.sqlite");
    let conn = Connection::open(&path).unwrap();
    conn.execute_batch(
        r#"
        CREATE TABLE ZSHORTCUT (
            Z_PK INTEGER PRIMARY KEY,
            ZNAME TEXT NOT NULL,
            ZWORKFLOWID TEXT NOT NULL,
            ZACTIONCOUNT INTEGER NOT NULL DEFAULT 0,
            ZACTIONSDESCRIPTION TEXT,
            ZWORKFLOWSUBTITLE TEXT,
            ZINPUTCLASSESDATA BLOB,
            ZHASSHORTCUTINPUTVARIABLES INTEGER NOT NULL DEFAULT 0
        );
        CREATE TABLE ZSHORTCUTACTIONS (
            Z_PK INTEGER PRIMARY KEY,
            ZSHORTCUT INTEGER NOT NULL,
            ZDATA BLOB
        );
        CREATE TABLE ZCOLLECTION (
            Z_PK INTEGER PRIMARY KEY,
            ZNAME TEXT,
            ZIDENTIFIER TEXT
        );
        CREATE TABLE Z_4SHORTCUTS (
            Z_4PARENTS1 INTEGER NOT NULL,
            Z_7SHORTCUTS INTEGER NOT NULL,
            Z_FOK_7SHORTCUTS INTEGER
        );
        "#,
    )
    .unwrap();
    conn.execute(
        "INSERT INTO ZSHORTCUT (Z_PK, ZNAME, ZWORKFLOWID, ZACTIONCOUNT) VALUES (1, ?1, ?2, 0)",
        ("Clean URL Share", "WF-1"),
    )
    .unwrap();
    conn.execute("INSERT INTO ZSHORTCUTACTIONS (Z_PK, ZSHORTCUT, ZDATA) VALUES (1, 1, X'626C6F62')", []).unwrap();
    conn.execute("INSERT INTO ZCOLLECTION (Z_PK, ZNAME, ZIDENTIFIER) VALUES (2, NULL, 'ShareSheet')", []).unwrap();
    conn.execute("INSERT INTO ZCOLLECTION (Z_PK, ZNAME, ZIDENTIFIER) VALUES (6, NULL, 'Root')", []).unwrap();
    conn.execute("INSERT INTO ZCOLLECTION (Z_PK, ZNAME, ZIDENTIFIER) VALUES (7, 'Work', 'work-folder')", []).unwrap();
    conn.execute("INSERT INTO ZCOLLECTION (Z_PK, ZNAME, ZIDENTIFIER) VALUES (8, 'Old', 'old-folder')", []).unwrap();
    conn.execute("INSERT INTO Z_4SHORTCUTS (Z_4PARENTS1, Z_7SHORTCUTS, Z_FOK_7SHORTCUTS) VALUES (6, 1, 6)", []).unwrap();
    conn.execute("INSERT INTO Z_4SHORTCUTS (Z_4PARENTS1, Z_7SHORTCUTS, Z_FOK_7SHORTCUTS) VALUES (8, 1, 8)", []).unwrap();
    path.display().to_string()
}

fn plain_fixture_db(dir: &TempDir) -> String {
    let path = dir.path().join("Shortcuts.sqlite");
    let conn = Connection::open(&path).unwrap();
    conn.execute_batch(
        r#"
        CREATE TABLE ZSHORTCUT (
            Z_PK INTEGER PRIMARY KEY,
            ZNAME TEXT NOT NULL,
            ZWORKFLOWID TEXT NOT NULL,
            ZACTIONCOUNT INTEGER NOT NULL DEFAULT 0,
            ZACTIONSDESCRIPTION TEXT,
            ZWORKFLOWSUBTITLE TEXT,
            ZINPUTCLASSESDATA BLOB,
            ZHASSHORTCUTINPUTVARIABLES INTEGER NOT NULL DEFAULT 0
        );
        CREATE TABLE ZSHORTCUTACTIONS (
            Z_PK INTEGER PRIMARY KEY,
            ZSHORTCUT INTEGER NOT NULL,
            ZDATA BLOB NOT NULL
        );
        "#,
    )
    .unwrap();
    conn.execute(
        "INSERT INTO ZSHORTCUT (Z_PK, ZNAME, ZWORKFLOWID, ZACTIONCOUNT) VALUES (1, ?1, ?2, 0)",
        ("Clean URL Share", "WF-1"),
    )
    .unwrap();
    conn.execute("INSERT INTO ZSHORTCUTACTIONS (Z_PK, ZSHORTCUT, ZDATA) VALUES (1, 1, X'626C6F62')", []).unwrap();
    path.display().to_string()
}

fn finds_by_name(db_path: &str) {
    let record = find_shortcut(&mut store(db_path), &ShortcutSelector::Name("Clean URL Share".into())).unwrap();

    assert_eq!(record.pk, 1);
    assert_eq!(record.workflow_id, "WF-1");
}

#[test]
fn db_tests_find_shortcut_returns_exact_match_by_name() {
    let dir = TempDir::new().unwrap();
    finds_by_name(&fixture_db(&dir));
}

#[test]
fn tests_find_shortcut_returns_exact_match_by_name() {
    let dir = TempDir::new().unwrap();
    finds_by_name(&plain_fixture_db(&dir));
}

#[test]
fn find_shortcut_rejects_ambiguous_name_matches() {
    let dir = TempDir::new().unwrap();
    let db_path = fixture_db(&dir);
    let conn = Connection::open(&db_path).unwrap();
    conn.execute(
        "INSERT INTO ZSHORTCUT (Z_PK, ZNAME, ZWORKFLOWID, ZACTIONCOUNT) VALUES (2, ?1, ?2, 0)",
        ("Clean URL Share", "WF-2"),
    )
    .unwrap();

    let err = find_shortcut(&mut store(&db_path), &ShortcutSelector::Name("Clean URL Share".into())).unwrap_err();

    let message = err.to_string();
    assert!(message.contains("multiple shortcuts matched"));
    assert!(message.contains("Clean URL Share"));
}

fn writes_payload(db_path: &str) {
    let payload = b"new-payload";
    let input_classes = b"input-classes";

    write_shortcut_payload(&mut store(db_path), 1, payload, 2, Some(input_classes), true).unwrap();

    let conn = Connection::open(db_path).unwrap();
    let (count, description, subtitle, has_input_vars, blob, classes): (
        i64,
        Option<String>,
        Option<String>,
        i64,
        Vec<u8>,
        Vec<u8>,
    ) = conn
        .query_row(
            r#"
            SELECT
                s.ZACTIONCOUNT,
                s.ZACTIONSDESCRIPTION,
                s.ZWORKFLOWSUBTITLE,
                s.ZHASSHORTCUTINPUTVARIABLES,
                a.ZDATA,
                s.ZINPUTCLASSESDATA
            FROM ZSHORTCUT s
            JOIN ZSHORTCUTACTIONS a ON a.ZSHORTCUT = s.Z_PK
            WHERE s.Z_PK = 1
            "#,
            [],
            |row| Ok((row.get(0)?, row.get(1)?, row.get(2)?, row.get(3)?, row.get(4)?, row.get(5)?)),
        )
        .unwrap();

    assert_eq!(count, 2);
    assert_eq!(description.as_deref(), Some("2 actions"));
    assert_eq!(subtitle.as_deref(), Some("2 actions"));
    assert_eq!(has_input_vars, 1);
    assert_eq!(blob, payload);
    assert_eq!(classes, input_classes);
}

#[test]
fn db_tests_write_shortcut_payload_updates_blob_and_counts() {
    let dir = TempDir::new().unwrap();
    writes_payload(&fixture_db(&dir));
}

#[test]
fn tests_write_shortcut_payload_updates_blob_and_counts() {
    let dir = TempDir::new().unwrap();
    writes_payload(&plain_fixture_db(&dir));
}

#[test]
fn rename_shortcut_name_by_workflow_id_updates_row() {
    let dir = TempDir::new().unwrap();
    let db_path = fixture_db(&dir);

    rename_shortcut_name_by_workflow_id(&mut store(&db_path), "WF-1", "Renamed Shortcut").unwrap();

    let conn = Connection::open(&db_path).unwrap();
    let renamed: String = conn
        .query_row("SELECT ZNAME FROM ZSHORTCUT WHERE ZWORKFLOWID = 'WF-1'", [], |row| row.get(0))
        .unwrap();

    assert_eq!(renamed, "Renamed Shortcut");
}

#[test]
fn load_shortcut_payload_treats_null_blob_as_empty_action_array() {
    let dir = TempDir::new().unwrap();
    let db_path = fixture_db(&dir);
    let conn = Connection::open(&db_path).unwrap();
    conn.execute("UPDATE ZSHORTCUTACTIONS SET ZDATA = NULL WHERE ZSHORTCUT = 1", []).unwrap();

    let payload = load_shortcut_payload(&mut store(&db_path), 1).unwrap();
    let actions = plist::from_bytes::<Vec<plist::Value>>(&payload).unwrap();

    assert!(actions.is_empty());
}

#[test]
fn encode_input_classes_for_url_round_trips_to_url_content_item() {
    let blob = encode_input_classes(ShortcutInputPolicy::Url).unwrap();
    let classes = plist::from_bytes::<Vec<String>>(&blob).unwrap();

    assert_eq!(classes, vec!["WFURLContentItem"]);
}

fn relation_rows(conn: &Connection) -> Vec<(i64, i64)> {
    conn.prepare("SELECT Z_4PARENTS1, Z_7SHORTCUTS FROM Z_4SHORTCUTS WHERE Z_7SHORTCUTS = 1 ORDER BY Z_4PARENTS1")
        .unwrap()
        .query_map([], |row| Ok((row.get(0)?, row.get(1)?)))
        .unwrap()
        .collect::<Result<Vec<_>, _>>()
        .unwrap()
}

#[test]
fn sync_shortcut_surfaces_replaces_named_folder_and_sets_share_sheet() {
    let dir = TempDir::new().unwrap();
    let db_path = fixture_db(&dir);

    sync_shortcut_surfaces(
        &mut store(&db_path),
        1,
        &vec![ShortcutSurface::ShareSheet, ShortcutSurface::Folder("Work".into())],
    )
    .unwrap();

    let conn = Connection::open(&db_path).unwrap();
    assert_eq!(relation_rows(&conn), vec![(2, 1), (6, 1), (7, 1)]);
}

#[test]
fn sync_shortcut_surfaces_can_replace_folder_without_removing_existing_share_sheet() {
    let dir = TempDir::new().unwrap();
    let db_path = fixture_db(&dir);
    let conn = Connection::open(&db_path).unwrap();
    conn.execute("INSERT INTO Z_4SHORTCUTS (Z_4PARENTS1, Z_7SHORTCUTS, Z_FOK_7SHORTCUTS) VALUES (2, 1, 2)", []).unwrap();

    sync_shortcut_surfaces(
        &mut store(&db_path),
        1,
        &vec![ShortcutSurface::ShareSheet, ShortcutSurface::Folder("Work".into())],
    )
    .unwrap();

    assert_eq!(relation_rows(&conn), vec![(2, 1), (6, 1), (7, 1)]);
}

#[test]
fn ensure_shortcut_folder_relation_adds_folder_without_dropping_existing_relations() {
    let dir = TempDir::new().unwrap();
    let db_path = fixture_db(&dir);
    let conn = Connection::open(&db_path).unwrap();
    conn.execute("INSERT INTO Z_4SHORTCUTS (Z_4PARENTS1, Z_7SHORTCUTS, Z_FOK_7SHORTCUTS) VALUES (2, 1, 0)", []).unwrap();

    ensure_shortcut_folder_relation(&mut store(&db_path), 1, "Work").unwrap();

    assert_eq!(relation_rows(&conn), vec![(2, 1), (6, 1), (7, 1), (8, 1)]);
}

#[test]
fn ensure_shortcut_relation_assigns_next_collection_order_index() {
    let dir = TempDir::new().unwrap();
    let db_path = fixture_db(&dir);

    ensure_shortcut_relation(&mut store(&db_path), 1, 2).unwrap();

    let conn = Connection::open(&db_path).unwrap();
    let order_index: i64 = conn
        .query_row("SELECT Z_FOK_7SHORTCUTS FROM Z_4SHORTCUTS WHERE Z_4PARENTS1 = 2 AND Z_7SHORTCUTS = 1", [], |row| row.get(0))
        .unwrap();

    assert_eq!(order_index, 0);
}

#[test]
fn find_latest_shortcut_after_pk_returns_newer_row() {
    let dir = TempDir::new().unwrap();
    let db_path = fixture_db(&dir);
    let conn = Connection::open(&db_path).unwrap();
    conn.execute(
        "INSERT INTO ZSHORTCUT (Z_PK, ZNAME, ZWORKFLOWID, ZACTIONCOUNT) VALUES (5, 'New Shortcut', 'WF-5', 0)",
        [],
    )
    .unwrap();

    let record = find_latest_shortcut_after_pk(&mut store(&db_path), 1).unwrap().unwrap();

    assert_eq!(record.pk, 5);
    assert_eq!(record.workflow_id, "WF-5");
}

#[test]
fn surfaces_and_folders_read_back() {
    let dir = TempDir::new().unwrap();
    let db_path = fixture_db(&dir);
    let surfaces = load_shortcut_surfaces(&mut store(&db_path), 1).unwrap();
    assert_eq!(surfaces, vec![ShortcutSurface::LibraryRoot, ShortcutSurface::Folder("Old".into())]);
    let err = ensure_shortcut_folder_relation(&mut store(&db_path), 1, "Missing").unwrap_err();
    assert_eq!(err.to_string(), "shortcut folder not found: Missing");
    let all = list_shortcuts(&mut store(&db_path)).unwrap();
    assert_eq!(all.len(), 1);
    assert_eq!(all[0].name, "Clean URL Share");
    let err = find_shortcut(&mut store(&db_path), &ShortcutSelector::Id("WF-9".into())).unwrap_err();
    assert_eq!(err.to_string(), "shortcut not found: WF-9");
}

#[test]
fn input_policy_reads_single_classes_and_defaults_to_any() {
    let dir = TempDir::new().unwrap();
    let db_path = fixture_db(&dir);
    assert_eq!(load_shortcut_input_policy(&mut store(&db_path), 1).unwrap(), ShortcutInputPolicy::Any);
    let text = encode_input_classes(ShortcutInputPolicy::Text).unwrap();
    assert_eq!(decode_input_policy(&text).unwrap(), ShortcutInputPolicy::Text);
    let any = encode_input_classes(ShortcutInputPolicy::Any).unwrap();
    assert_eq!(plist::from_bytes::<Vec<String>>(&any).unwrap().len(), 19);
    assert_eq!(decode_input_policy(&any).unwrap(), ShortcutInputPolicy::Any);
    let urls = encode_input_classes(ShortcutInputPolicy::Urls).unwrap();
    assert_eq!(decode_input_policy(&urls).unwrap(), ShortcutInputPolicy::Url);
    assert!(decode_input_policy(b"not a plist").unwrap_err().to_string().starts_with("failed to decode shortcut input classes: "));
}

#[test]
fn surface_plan_and_name_picking() {
    let (share, folders) = surface_plan(&vec![
        ShortcutSurface::Folder("A".into()),
        ShortcutSurface::LibraryRoot,
        ShortcutSurface::ShareSheet,
        ShortcutSurface::Folder("B".into()),
    ]);
    assert!(share);
    assert_eq!(folders, vec!["A".to_string(), "B".to_string()]);
    let rec = |pk: i64| ShortcutRecord { pk, name: "N".into(), workflow_id: format!("WF-{pk}"), action_count: 0 };
    assert_eq!(pick_by_name(vec![rec(3)], "N").unwrap().pk, 3);
    assert_eq!(pick_by_name(vec![], "N").unwrap_err().to_string(), "shortcut not found: N");
    assert_eq!(pick_by_name(vec![rec(1), rec(2)], "N").unwrap_err().to_string(), "multiple shortcuts matched: N");
    let empty: Vec<String> = Vec::new();
    let mut bytes = Vec::new();
    plist::to_writer_binary(&mut bytes, &vec!["a", "b", "c"]).unwrap();
    assert_eq!(compiled_action_count(&bytes).unwrap(), 3);
    let mut none = Vec::new();
    plist::to_writer_binary(&mut none, &empty).unwrap();
    assert_eq!(compiled_action_count(&none).unwrap(), 0);
}

#[test]
fn encoded_input_classes_decode_back_to_the_policy() {
    for policy in [
        ShortcutInputPolicy::Any,
        ShortcutInputPolicy::Url,
        ShortcutInputPolicy::Text,
        ShortcutInputPolicy::Image,
        ShortcutInputPolicy::File,
    ] {
        let bytes = encode_input_classes(policy).unwrap();
        assert_eq!(decode_input_policy(&bytes).unwrap(), policy);
    }
    let bytes = encode_input_classes(ShortcutInputPolicy::Urls).unwrap();
    assert_eq!(decode_input_policy(&bytes).unwrap(), ShortcutInputPolicy::Url);
}

#[test]
fn payload_rows_give_the_blob_an_empty_array_for_null_or_an_error() {
    assert_eq!(payload_of_rows(&vec![vec![SqlValue::Blob(vec![1, 2, 3])]]).unwrap(), vec![1, 2, 3]);
    let empty = payload_of_rows(&vec![vec![SqlValue::Null]]).unwrap();
    assert_eq!(compiled_action_count(&empty).unwrap(), 0);
    assert_eq!(payload_of_rows(&vec![]).unwrap_err().to_string(), "Query returned no rows");
    assert_eq!(
        payload_of_rows(&vec![vec![SqlValue::Integer(4)]]).unwrap_err().to_string(),
        "unexpected column type in shortcuts database row"
    );
}

#[test]
fn input_policy_rows_read_null_as_any_and_classes_as_their_policy() {
    assert_eq!(input_policy_of_rows(&vec![vec![SqlValue::Null]]).unwrap(), ShortcutInputPolicy::Any);
    let bytes = encode_input_classes(ShortcutInputPolicy::Image).unwrap();
    assert_eq!(input_policy_of_rows(&vec![vec![SqlValue::Blob(bytes)]]).unwrap(), ShortcutInputPolicy::Image);
    assert_eq!(input_policy_of_rows(&vec![]).unwrap_err().to_string(), "Query returned no rows");
}

#[test]
fn rename_hands_the_new_name_then_the_workflow_id() {
    struct Recorder {
        seen: Vec<(String, Vec<SqlValue>)>,
    }
    impl ShortcutsDb for Recorder {
        fn execute(&mut self, sql: &str, params: &Vec<SqlValue>) -> Result<(), String> {
            self.seen.push((sql.to_string(), params.clone()));
            Ok(())
        }
        fn query(&mut self, _sql: &str, _params: &Vec<SqlValue>) -> Result<Vec<Vec<SqlValue>>, String> {
            Err("no queries here".into())
        }
        fn begin(&mut self) -> Result<(), String> {
            Ok(())
        }
        fn commit(&mut self) -> Result<(), String> {
            Ok(())
        }
        fn rollback(&mut self) {}
    }
    let mut store = ShortcutStore::new(Recorder { seen: Vec::new() });
    rename_shortcut_name_by_workflow_id(&mut store, "WF-1", "Renamed").unwrap();
    assert_eq!(store.db.seen.len(), 1);
    assert_eq!(store.db.seen[0].1, vec![SqlValue::Text("Renamed".into()), SqlValue::Text("WF-1".into())]);
    let err = find_shortcut(&mut store, &ShortcutSelector::Id("WF-1".into())).unwrap_err();
    assert_eq!(err.to_string(), "no queries here");
}
