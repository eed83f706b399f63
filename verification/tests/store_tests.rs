use vibra::Row;
use vibra::VibraConfig;
use vibra::VibraDB;
use vibra::VibraError;

fn temp_path() -> String {
    tempfile::tempdir().unwrap().path().to_str().unwrap().to_string()
}

fn store(cache_size: usize, layers: usize) -> VibraDB {
    let config = VibraConfig {
        path: Some(temp_path()),
        cache_size: Some(cache_size),
        encryption_layers: Some(layers),
    };
    VibraDB::new(config).unwrap()
}

fn user_row() -> Row {
    Row {
        id: "row1".to_string(),
        columns: vec![
            ("name".to_string(), "John Doe".to_string()),
            ("email".to_string(), "john.doe@example.com".to_string()),
        ],
    }
}

#[test]
fn test_scenario_users_row1() {
    let mut db = store(1024, 10);
    db.create_table("users").unwrap();

    let row = user_row();
    db.insert_row("users", row.clone()).unwrap();

    assert_eq!(db.get_row("users", "row1").unwrap(), Some(row));

    db.delete_row("users", "row1").unwrap();
    assert_eq!(db.get_row("users", "row1").unwrap(), None);
}

#[test]
fn test_get_row_after_eviction() {
    // A cache of one entry: inserting a second row evicts the first, so the
    // first read below must fetch the stored record and reverse every layer.
    let mut db = store(1, 4);
    db.create_table("users").unwrap();

    let row1 = user_row();
    let row2 = Row {
        id: "row2".to_string(),
        columns: vec![("name".to_string(), "Jane Doe".to_string())],
    };
    db.insert_row("users", row1.clone()).unwrap();
    db.insert_row("users", row2.clone()).unwrap();

    assert_eq!(db.get_row("users", "row1").unwrap(), Some(row1));
    assert_eq!(db.get_row("users", "row2").unwrap(), Some(row2));
}

#[test]
fn test_delete_row_completeness() {
    let mut db = store(1024, 10);
    db.create_table("users").unwrap();

    db.insert_row("users", user_row()).unwrap();
    db.delete_row("users", "row1").unwrap();

    assert_eq!(db.get_row("users", "row1").unwrap(), None);
}

#[test]
fn test_truncate_isolation() {
    let mut db = store(1024, 10);
    db.create_table("logs").unwrap();
    db.create_table("users").unwrap();

    let kept = Row {
        id: "keep".to_string(),
        columns: vec![("level".to_string(), "info".to_string())],
    };
    db.insert_row("users", user_row()).unwrap();
    db.insert_row("logs", kept.clone()).unwrap();

    db.truncate_table("users").unwrap();

    assert_eq!(db.get_row("users", "row1").unwrap(), None);
    assert_eq!(db.get_row("logs", "keep").unwrap(), Some(kept));
    assert!(db.table_exists("users").unwrap());
}

#[test]
fn test_idempotent_table_creation() {
    let mut db = store(1024, 10);
    db.create_table("users").unwrap();
    db.create_table("users").unwrap();
    assert!(db.table_exists("users").unwrap());

    // The sentinel stays one entry: truncating rows does not remove it.
    db.truncate_table("users").unwrap();
    assert!(db.table_exists("users").unwrap());
    assert_eq!(db.get_row("users", "row1").unwrap(), None);
}

#[test]
fn test_update_row() {
    let mut db = store(1024, 10);
    db.create_table("users").unwrap();
    db.insert_row("users", user_row()).unwrap();

    let updated = Row {
        id: "row1".to_string(),
        columns: vec![("name".to_string(), "John Q. Doe".to_string())],
    };
    db.update_row("users", updated.clone()).unwrap();

    assert_eq!(db.get_row("users", "row1").unwrap(), Some(updated));
}

#[test]
fn test_open_failure_is_storage_error() {
    // sled cannot open a tree where a plain file sits.
    let file = tempfile::NamedTempFile::new().unwrap();
    let config = VibraConfig {
        path: Some(file.path().to_str().unwrap().to_string()),
        cache_size: Some(16),
        encryption_layers: Some(2),
    };
    match VibraDB::new(config) {
        Err(VibraError::StorageIOFailure) => {},
        _ => panic!("opening over a plain file must fail with a storage error"),
    }
}

#[test]
fn test_with_defaults() {
    let config = VibraConfig { path: None, cache_size: None, encryption_layers: None };
    let filled = config.with_defaults();
    assert_eq!(filled.path, Some("vibra.db".to_string()));
    assert_eq!(filled.cache_size, Some(1024));
    assert_eq!(filled.encryption_layers, Some(10));

    let config = VibraConfig {
        path: Some("elsewhere".to_string()),
        cache_size: Some(7),
        encryption_layers: Some(25),
    };
    let filled = config.with_defaults();
    assert_eq!(filled.path, Some("elsewhere".to_string()));
    assert_eq!(filled.cache_size, Some(7));
    assert_eq!(filled.encryption_layers, Some(25));
}
