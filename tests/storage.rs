use dechib::error::{DbError, ErrorCategory};
use dechib::storage::{classify, Entry, StorageEngine};
use dechib::types::{
    ColumnDescriptor, ColumnDescriptors, CreateTableOptions, DataType, Expr, InsertOptions,
    Literal, Value,
};

fn default_fixture() -> CreateTableOptions {
    let mut columns = ColumnDescriptors::new();
    columns.insert(
        "id".to_string(),
        ColumnDescriptor {
            datatype: DataType::UnsignedInteger,
            not_null: true,
            unique: true,
            primary_key: true,
            ..Default::default()
        },
    );
    columns.insert(
        "name".to_string(),
        ColumnDescriptor {
            datatype: DataType::Text,
            not_null: true,
            ..Default::default()
        },
    );

    let expr = Expr::Literal(Literal::Text("London".to_string()));

    columns.insert(
        "city".to_string(),
        ColumnDescriptor {
            datatype: DataType::Text,
            not_null: true,
            default: Some(expr),
            ..Default::default()
        },
    );

    CreateTableOptions {
        name: "users".to_string(),
        columns,
    }
}

fn auto_increment_users() -> CreateTableOptions {
    let mut columns = ColumnDescriptors::new();
    columns.insert(
        "id".to_string(),
        ColumnDescriptor {
            datatype: DataType::Integer,
            auto_increment: true,
            primary_key: true,
            unique: true,
            ..Default::default()
        },
    );
    columns.insert(
        "name".to_string(),
        ColumnDescriptor {
            datatype: DataType::Text,
            not_null: true,
            ..Default::default()
        },
    );
    CreateTableOptions {
        name: "users".to_string(),
        columns,
    }
}

fn insert_names(names: &[&str]) -> InsertOptions {
    InsertOptions {
        table: "users".to_string(),
        columns: vec!["name".to_string()],
        values: names
            .iter()
            .map(|n| vec![Value::Text(n.to_string())])
            .collect(),
    }
}

#[test]
fn storage_engine_create_table() {
    let mut engine = StorageEngine::new();

    let opt = default_fixture();

    engine.create_table(&opt).unwrap();

    let metadata = engine.table_metadata("users").unwrap();

    assert_eq!(metadata, opt.columns);
}

#[test]
fn error_if_table_already_exists() {
    let mut engine = StorageEngine::new();

    let opt = default_fixture();

    engine.create_table(&opt).unwrap();
    assert!(engine.create_table(&opt).is_err());
}

#[test]
fn metadata_error_on_nonexistant_table() {
    let engine = StorageEngine::new();

    assert!(engine.table_metadata("users").is_err());
}

#[test]
fn invalid_insert_ops() {
    let mut engine = StorageEngine::new();

    let opt = default_fixture();

    engine.create_table(&opt).unwrap();

    let insert = InsertOptions {
        table: "doesnt_exist".to_string(),
        columns: vec!["name".to_string()],
        values: vec![vec![Value::Text("Daniel".to_string())]],
    };
    // Table doesn't exist should fail
    assert!(engine.insert_rows(&insert).is_err());

    let insert = InsertOptions {
        table: "users".to_string(),
        columns: vec!["city".to_string()],
        values: vec![vec![Value::Text("London".to_string())]],
    };

    // Missing name column should fail as it's not-null
    assert!(engine.insert_rows(&insert).is_err());

    let insert = InsertOptions {
        table: "users".to_string(),
        columns: vec!["toshi".to_string()],
        values: vec![vec![Value::Text("London".to_string())]],
    };

    // Missing name column should fail as it's not-null
    assert!(engine.insert_rows(&insert).is_err());
}

#[test]
fn second_create_keeps_first_descriptor() {
    let mut engine = StorageEngine::new();
    let first = default_fixture();
    engine.create_table(&first).unwrap();
    let second = auto_increment_users();
    let err = engine.create_table(&second).unwrap_err();
    assert_eq!(err, DbError::TableExists("users".to_string()));
    assert_eq!(err.category(), ErrorCategory::Schema);
    assert_eq!(engine.table_metadata("users").unwrap(), first.columns);
}

#[test]
fn insert_into_unknown_table_is_schema_error() {
    let mut engine = StorageEngine::new();
    let err = engine.insert_rows(&insert_names(&["Daniel"])).unwrap_err();
    assert_eq!(err, DbError::NoSuchTable("users".to_string()));
    assert_eq!(err.category(), ErrorCategory::Schema);
    assert!(!engine.has_table("users"));
}

#[test]
fn auto_increment_counts_from_one() {
    let mut engine = StorageEngine::new();
    engine.create_table(&auto_increment_users()).unwrap();
    let first = engine.insert_rows(&insert_names(&["Daniel"])).unwrap();
    assert_eq!(first.table, "users");
    assert_eq!(first.puts.len(), 1);
    let record = &first.puts[0].1;
    assert_eq!(record.get("id"), Some(&Value::Number("1".to_string())));
    assert_eq!(record.get("name"), Some(&Value::Text("Daniel".to_string())));
    assert_eq!(first.puts[0].0.primary, vec![Value::Number("1".to_string())]);

    let second = engine.insert_rows(&insert_names(&["Daniel"])).unwrap();
    assert_eq!(
        second.puts[0].1.get("id"),
        Some(&Value::Number("2".to_string()))
    );
    let entry = Entry {
        table: "users".to_string(),
        column: "id".to_string(),
    };
    assert_eq!(engine.counter(&entry), Some(2));
}

#[test]
fn sequential_identifiers_have_no_gaps() {
    let mut engine = StorageEngine::new();
    engine.create_table(&auto_increment_users()).unwrap();
    let batch = engine
        .insert_rows(&insert_names(&["a", "b", "c"]))
        .unwrap();
    let ids: Vec<Value> = batch
        .puts
        .iter()
        .map(|(_, r)| r.get("id").unwrap().clone())
        .collect();
    assert_eq!(
        ids,
        vec![
            Value::Number("1".to_string()),
            Value::Number("2".to_string()),
            Value::Number("3".to_string())
        ]
    );
    let next = engine.insert_rows(&insert_names(&["d"])).unwrap();
    assert_eq!(
        next.puts[0].1.get("id"),
        Some(&Value::Number("4".to_string()))
    );
    let big = engine
        .insert_rows(&insert_names(&["e", "f", "g", "h", "i", "j"]))
        .unwrap();
    assert_eq!(
        big.puts[5].1.get("id"),
        Some(&Value::Number("10".to_string()))
    );
}

#[test]
fn missing_required_column_fails() {
    let mut engine = StorageEngine::new();
    engine.create_table(&auto_increment_users()).unwrap();
    let no_value = InsertOptions {
        table: "users".to_string(),
        columns: vec!["name".to_string()],
        values: vec![vec![]],
    };
    assert_eq!(
        engine.insert_rows(&no_value).unwrap_err(),
        DbError::RowLength(0)
    );
    let no_columns = InsertOptions {
        table: "users".to_string(),
        columns: vec![],
        values: vec![vec![]],
    };
    let err = engine.insert_rows(&no_columns).unwrap_err();
    assert_eq!(err, DbError::MissingColumn("name".to_string()));
    assert_eq!(err.category(), ErrorCategory::Constraint);
    let entry = Entry {
        table: "users".to_string(),
        column: "id".to_string(),
    };
    assert_eq!(engine.counter(&entry), Some(0));
}

#[test]
fn unknown_column_fails_before_staging() {
    let mut engine = StorageEngine::new();
    engine.create_table(&auto_increment_users()).unwrap();
    let insert = InsertOptions {
        table: "users".to_string(),
        columns: vec!["name".to_string(), "email".to_string()],
        values: vec![vec![
            Value::Text("Daniel".to_string()),
            Value::Text("d@example.org".to_string()),
        ]],
    };
    let err = engine.insert_rows(&insert).unwrap_err();
    assert_eq!(err, DbError::UnknownColumn("email".to_string()));
    assert_eq!(err.category(), ErrorCategory::Schema);
    let entry = Entry {
        table: "users".to_string(),
        column: "id".to_string(),
    };
    assert_eq!(engine.counter(&entry), Some(0));
}

#[test]
fn default_fills_omitted_column() {
    let mut engine = StorageEngine::new();
    engine.create_table(&default_fixture()).unwrap();
    let insert = InsertOptions {
        table: "users".to_string(),
        columns: vec!["id".to_string(), "name".to_string()],
        values: vec![vec![
            Value::Number("7".to_string()),
            Value::Text("Daniel".to_string()),
        ]],
    };
    let batch = engine.insert_rows(&insert).unwrap();
    let record = &batch.puts[0].1;
    assert_eq!(record.columns.len(), 3);
    assert_eq!(record.get("city"), Some(&Value::Text("London".to_string())));
    assert_eq!(batch.puts[0].0.primary, vec![Value::Number("7".to_string())]);
}

#[test]
fn omitted_primary_key_without_generator_fails() {
    let mut engine = StorageEngine::new();
    engine.create_table(&default_fixture()).unwrap();
    let insert = InsertOptions {
        table: "users".to_string(),
        columns: vec!["name".to_string()],
        values: vec![vec![Value::Text("Daniel".to_string())]],
    };
    assert_eq!(
        engine.insert_rows(&insert).unwrap_err(),
        DbError::CannotGenerate("id".to_string())
    );
}

#[test]
fn type_mismatch_fails() {
    let mut engine = StorageEngine::new();
    engine.create_table(&auto_increment_users()).unwrap();
    let insert = InsertOptions {
        table: "users".to_string(),
        columns: vec!["name".to_string()],
        values: vec![
            vec![Value::Text("ok".to_string())],
            vec![Value::Boolean(true)],
        ],
    };
    assert_eq!(
        engine.insert_rows(&insert).unwrap_err(),
        DbError::TypeMismatch("name".to_string())
    );
    let null_name = insert_names(&[]);
    let null_name = InsertOptions {
        values: vec![vec![Value::Null]],
        ..null_name
    };
    assert_eq!(
        engine.insert_rows(&null_name).unwrap_err(),
        DbError::TypeMismatch("name".to_string())
    );
}

#[test]
fn table_without_primary_key_keys_on_all_columns() {
    let mut engine = StorageEngine::new();
    let mut columns = ColumnDescriptors::new();
    columns.insert(
        "a".to_string(),
        ColumnDescriptor {
            datatype: DataType::Int,
            ..Default::default()
        },
    );
    columns.insert(
        "b".to_string(),
        ColumnDescriptor {
            datatype: DataType::Bytea,
            ..Default::default()
        },
    );
    engine
        .create_table(&CreateTableOptions {
            name: "t".to_string(),
            columns,
        })
        .unwrap();
    let insert = InsertOptions {
        table: "t".to_string(),
        columns: vec!["b".to_string()],
        values: vec![vec![Value::Bytes(vec![1, 2])]],
    };
    let batch = engine.insert_rows(&insert).unwrap();
    assert_eq!(
        batch.puts[0].0.primary,
        vec![Value::Null, Value::Bytes(vec![1, 2])]
    );
}

#[test]
fn classify_sorts_columns() {
    let table = default_fixture().columns;
    let supplied = vec!["name".to_string(), "zip".to_string()];
    let c = classify(&table, &supplied);
    assert_eq!(c.unknown, vec![1]);
    assert_eq!(c.missing, Vec::<usize>::new());
    assert_eq!(c.generate, vec![0, 2]);
    let c = classify(&table, &vec![]);
    assert_eq!(c.missing, vec![1]);
}

#[test]
fn column_predicates() {
    let plain = ColumnDescriptor {
        not_null: true,
        ..Default::default()
    };
    assert!(plain.needs_value());
    assert!(plain.should_generate());
    let pk = ColumnDescriptor {
        not_null: true,
        primary_key: true,
        ..Default::default()
    };
    assert!(!pk.needs_value());
    let nullable = ColumnDescriptor::default();
    assert!(!nullable.should_generate());
    assert!(nullable.value_matches_type(&Value::Null));
    assert!(!plain.value_matches_type(&Value::Null));
    let text = ColumnDescriptor {
        datatype: DataType::Varchar,
        ..Default::default()
    };
    assert!(text.value_matches_type(&Value::Text("x".to_string())));
    assert!(!text.value_matches_type(&Value::Number("1".to_string())));
}
