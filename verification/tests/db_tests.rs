use vibra::Row;
use vibra::VibraConfig;
use vibra::VibraDB;

fn temp_path() -> String {
    tempfile::tempdir().unwrap().path().to_str().unwrap().to_string()
}

fn sample_row() -> Row {
    Row {
        id: "row1".to_string(),
        columns: vec![
            ("name".to_string(), "John Doe".to_string()),
            ("email".to_string(), "john.doe@example.com".to_string()),
        ],
    }
}

fn second_row() -> Row {
    Row {
        id: "row2".to_string(),
        columns: vec![
            ("name".to_string(), "Jane Doe".to_string()),
            ("email".to_string(), "jane.doe@example.com".to_string()),
        ],
    }
}

#[test]
fn test_create_table() {
    let config = VibraConfig {
        path: Some(temp_path()),
        cache_size: Some(1024),
        encryption_layers: Some(10),
    };
    let db = VibraDB::new(config).unwrap();

    db.create_table("test_table").unwrap();
    assert!(db.table_exists("test_table").unwrap());
}

#[test]
fn test_insert_and_get_row() {
    let config = VibraConfig {
        path: Some(temp_path()),
        cache_size: Some(1024),
        encryption_layers: Some(10),
    };
    let mut db = VibraDB::new(config).unwrap();

    db.create_table("test_table").unwrap();

    let row = sample_row();
    db.insert_row("test_table", row.clone()).unwrap();
    let retrieved_row = db.get_row("test_table", "row1").unwrap();

    assert_eq!(retrieved_row, Some(row));
}

#[test]
fn test_delete_table() {
    let config = VibraConfig {
        path: Some(temp_path()),
        cache_size: Some(1024),
        encryption_layers: Some(10),
    };
    let db = VibraDB::new(config).unwrap();

    db.create_table("test_table").unwrap();
    db.delete_table("test_table").unwrap();

    assert!(!db.table_exists("test_table").unwrap());
}

#[test]
fn test_truncate_table() {
    let config = VibraConfig {
        path: Some(temp_path()),
        cache_size: Some(1024),
        encryption_layers: Some(10),
    };
    let mut db = VibraDB::new(config).unwrap();

    db.create_table("test_table").unwrap();

    let row = sample_row();
    db.insert_row("test_table", row.clone()).unwrap();

    db.truncate_table("test_table").unwrap();

    let retrieved_row = db.get_row("test_table", "row1").unwrap();
    assert_eq!(retrieved_row, None);
}

#[test]
fn test_truncate_db() {
    let config = VibraConfig {
        path: Some(temp_path()),
        cache_size: Some(1024),
        encryption_layers: Some(10),
    };
    let mut db = VibraDB::new(config).unwrap();

    db.create_table("test_table").unwrap();

    let row = sample_row();
    db.insert_row("test_table", row.clone()).unwrap();

    db.truncate_db().unwrap();

    let retrieved_row = db.get_row("test_table", "row1").unwrap();
    assert_eq!(retrieved_row, None);
}

#[test]
fn test_insert_many_rows_manual() {
    let config = VibraConfig {
        path: Some(temp_path()),
        cache_size: Some(1024),
        encryption_layers: Some(10),
    };
    let mut db = VibraDB::new(config).unwrap();

    db.create_table("test_table").unwrap();

    let row1 = sample_row();
    let row2 = second_row();

    db.insert_rows("test_table", vec![row1.clone(), row2.clone()]).unwrap();

    let retrieved_row1 = db.get_row("test_table", "row1").unwrap();
    let retrieved_row2 = db.get_row("test_table", "row2").unwrap();

    assert_eq!(retrieved_row1, Some(row1));
    assert_eq!(retrieved_row2, Some(row2));
}

#[test]
fn test_insert_many_rows() {
    let config = VibraConfig {
        path: Some(temp_path()),
        cache_size: Some(1024),
        encryption_layers: Some(10),
    };
    let mut db = VibraDB::new(config).unwrap();

    db.create_table("test_table").unwrap();

    let row1 = sample_row();
    let row2 = second_row();

    db.insert_many_rows("test_table", vec![row1.clone(), row2.clone()]).unwrap();

    let retrieved_row1 = db.get_row("test_table", "row1").unwrap();
    let retrieved_row2 = db.get_row("test_table", "row2").unwrap();

    assert_eq!(retrieved_row1, Some(row1));
    assert_eq!(retrieved_row2, Some(row2));
}
