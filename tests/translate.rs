use dechib::error::{Clause, DbError, ErrorCategory};
use dechib::instance::{Effect, Instance};
use dechib::translate::{
    ColumnDef, ColumnOption, ColumnOptionDef, InsertSource, QueryEngine, Statement,
    TableConstraint,
};
use dechib::types::{
    ColumnDescriptor, ColumnDescriptors, Command, DataType, Expr, Literal, Value,
};

fn opt(option: ColumnOption) -> ColumnOptionDef {
    ColumnOptionDef { name: None, option }
}

fn users_statement() -> Statement {
    Statement::CreateTable {
        name: "users".to_string(),
        columns: vec![
            ColumnDef {
                name: "id".to_string(),
                data_type: DataType::UnsignedInteger,
                options: vec![
                    opt(ColumnOption::NotNull),
                    opt(ColumnOption::Unique),
                    opt(ColumnOption::PrimaryKey),
                ],
            },
            ColumnDef {
                name: "name".to_string(),
                data_type: DataType::Text,
                options: vec![opt(ColumnOption::NotNull)],
            },
        ],
        constraints: vec![],
    }
}

#[test]
fn lib_create_table() {
    let mut engine = Instance::new();

    let mut columns = ColumnDescriptors::new();
    columns.insert(
        "id".to_string(),
        ColumnDescriptor {
            datatype: DataType::UnsignedInteger,
            not_null: true,
            unique: true,
            primary_key: true,
            ..Default::default()
        },
    );
    columns.insert(
        "name".to_string(),
        ColumnDescriptor {
            datatype: DataType::Text,
            not_null: true,
            ..Default::default()
        },
    );

    let (effects, result) = engine.execute(&vec![users_statement()]);
    result.unwrap();
    assert_eq!(effects.len(), 1);

    let metadata = engine.storage().table_metadata("users").unwrap();

    assert_eq!(metadata, columns);
}

#[test]
fn duplicate_column_in_insert() {
    let engine = QueryEngine::default();
    let res = engine.process_sql(&vec![Statement::Insert {
        table_name: "Persons".to_string(),
        columns: vec!["FirstName".to_string(), "FirstName".to_string()],
        source: Some(InsertSource::Values(vec![vec![
            Expr::Literal(Literal::Text("Daniel".to_string())),
            Expr::Literal(Literal::Text("Daniel".to_string())),
        ]])),
    }]);
    assert!(res.is_err(), "{:?} should be error", res);
    assert_eq!(res.unwrap_err(), DbError::DuplicateColumn("FirstName".to_string()));
}

#[test]
fn insert_translates_literals() {
    let statement = Statement::Insert {
        table_name: "t".to_string(),
        columns: vec!["a".to_string(), "b".to_string(), "c".to_string(), "d".to_string()],
        source: Some(InsertSource::Values(vec![vec![
            Expr::Literal(Literal::Number("007".to_string())),
            Expr::Literal(Literal::HexString("0aFf".to_string())),
            Expr::Literal(Literal::Boolean(true)),
            Expr::Literal(Literal::Null),
        ]])),
    };
    match Command::from_statement(&statement).unwrap() {
        Command::Insert(o) => {
            assert_eq!(o.table, "t");
            assert_eq!(o.columns.len(), 4);
            assert_eq!(
                o.values,
                vec![vec![
                    Value::Number("7".to_string()),
                    Value::Bytes(vec![0x0a, 0xff]),
                    Value::Boolean(true),
                    Value::Null,
                ]]
            );
            let records = o.records();
            assert_eq!(records.len(), 1);
            assert_eq!(records[0].get("b"), Some(&Value::Bytes(vec![10, 255])));
        }
        other => panic!("unexpected {:?}", other),
    }
}

#[test]
fn literal_conversion_errors() {
    assert_eq!(
        Value::from_literal(&Literal::HexString("abc".to_string())),
        Err(DbError::InvalidHex("abc".to_string()))
    );
    assert_eq!(
        Value::from_literal(&Literal::HexString("zz".to_string())),
        Err(DbError::InvalidHex("zz".to_string()))
    );
    assert_eq!(
        Value::from_literal(&Literal::Number("1.2.3".to_string())),
        Err(DbError::InvalidNumber("1.2.3".to_string()))
    );
    assert_eq!(
        Value::from_literal(&Literal::Number("2.50".to_string())),
        Ok(Value::Number("2.50".to_string()))
    );
    assert_eq!(
        Value::from_literal(&Literal::Unsupported("B'01'".to_string())),
        Err(DbError::UnsupportedLiteral("B'01'".to_string()))
    );
    assert_eq!(
        Value::from_literal(&Literal::Text("x".to_string())),
        Ok(Value::Text("x".to_string()))
    );
}

#[test]
fn non_literal_row_values_are_refused() {
    let statement = Statement::Insert {
        table_name: "t".to_string(),
        columns: vec!["a".to_string()],
        source: Some(InsertSource::Values(vec![vec![Expr::Other("1 + 1".to_string())]])),
    };
    assert_eq!(
        Command::from_statement(&statement).unwrap_err(),
        DbError::UnsupportedExpression("1 + 1".to_string())
    );
    let statement = Statement::Insert {
        table_name: "t".to_string(),
        columns: vec!["a".to_string()],
        source: Some(InsertSource::Other("SELECT 1".to_string())),
    };
    let err = Command::from_statement(&statement).unwrap_err();
    assert_eq!(err, DbError::UnsupportedSetExpression("SELECT 1".to_string()));
    assert_eq!(err.category(), ErrorCategory::Parse);
}

#[test]
fn unsupported_column_options_are_refused() {
    for (option, clause) in [
        (ColumnOption::ForeignKey, Clause::ForeignKey),
        (ColumnOption::Check, Clause::Check),
        (ColumnOption::OnUpdate, Clause::OnUpdate),
        (ColumnOption::Generated, Clause::Generated),
        (
            ColumnOption::Unsupported("ALIAS x".to_string()),
            Clause::Other("ALIAS x".to_string()),
        ),
    ] {
        let statement = Statement::CreateTable {
            name: "t".to_string(),
            columns: vec![ColumnDef {
                name: "a".to_string(),
                data_type: DataType::Int,
                options: vec![opt(ColumnOption::NotNull), opt(option)],
            }],
            constraints: vec![],
        };
        assert_eq!(
            Command::from_statement(&statement).unwrap_err(),
            DbError::UnsupportedClause(clause)
        );
    }
}

#[test]
fn repeated_column_merges_options() {
    let statement = Statement::CreateTable {
        name: "t".to_string(),
        columns: vec![
            ColumnDef {
                name: "a".to_string(),
                data_type: DataType::Int,
                options: vec![opt(ColumnOption::NotNull)],
            },
            ColumnDef {
                name: "b".to_string(),
                data_type: DataType::Text,
                options: vec![opt(ColumnOption::Ignored), opt(ColumnOption::Null)],
            },
            ColumnDef {
                name: "a".to_string(),
                data_type: DataType::Text,
                options: vec![
                    opt(ColumnOption::AutoIncrement),
                    opt(ColumnOption::Default(Expr::Literal(Literal::Number("3".to_string())))),
                ],
            },
        ],
        constraints: vec![TableConstraint::Other("INDEX i (b)".to_string())],
    };
    match Command::from_statement(&statement).unwrap() {
        Command::CreateTable(o) => {
            assert_eq!(o.columns.len(), 2);
            let a = o.columns.get("a").unwrap();
            assert_eq!(a.datatype, DataType::Int);
            assert!(a.not_null && a.auto_increment);
            assert_eq!(
                a.default,
                Some(Expr::Literal(Literal::Number("3".to_string())))
            );
            assert_eq!(o.columns.position("b"), Some(1));
        }
        other => panic!("unexpected {:?}", other),
    }
}

#[test]
fn queries_translate_but_do_not_run() {
    let mut instance = Instance::new();
    let (effects, result) = instance.execute(&vec![Statement::Query]);
    assert!(effects.is_empty());
    assert_eq!(result, Err(DbError::SelectNotSupported));
    assert_eq!(
        Command::from_statement(&Statement::Other("DROP TABLE t".to_string())).unwrap_err(),
        DbError::UnsupportedStatement("DROP TABLE t".to_string())
    );
}

#[test]
fn execution_stops_at_first_failure() {
    let mut instance = Instance::new();
    let insert = Statement::Insert {
        table_name: "users".to_string(),
        columns: vec!["id".to_string(), "name".to_string()],
        source: Some(InsertSource::Values(vec![vec![
            Expr::Literal(Literal::Number("1".to_string())),
            Expr::Literal(Literal::Text("Daniel".to_string())),
        ]])),
    };
    let (effects, result) = instance.execute(&vec![
        users_statement(),
        insert.clone(),
        users_statement(),
        insert,
    ]);
    assert_eq!(effects.len(), 2);
    assert!(matches!(effects[0], Effect::Created(_)));
    match &effects[1] {
        Effect::Inserted(batch) => {
            assert_eq!(batch.puts.len(), 1);
            assert_eq!(batch.puts[0].0.primary, vec![Value::Number("1".to_string())]);
        }
        other => panic!("unexpected {:?}", other),
    }
    assert_eq!(result, Err(DbError::TableExists("users".to_string())));
    assert!(instance.storage().has_table("users"));
}

#[test]
fn translation_failure_runs_nothing() {
    let mut instance = Instance::new();
    let (effects, result) = instance.execute(&vec![
        users_statement(),
        Statement::Other("VACUUM".to_string()),
    ]);
    assert!(effects.is_empty());
    assert_eq!(result, Err(DbError::UnsupportedStatement("VACUUM".to_string())));
    assert!(!instance.storage().has_table("users"));
}

#[test]
fn table_constraints_mark_columns() {
    let statement = Statement::CreateTable {
        name: "t".to_string(),
        columns: vec![
            ColumnDef {
                name: "a".to_string(),
                data_type: DataType::Int,
                options: vec![],
            },
            ColumnDef {
                name: "b".to_string(),
                data_type: DataType::Int,
                options: vec![],
            },
        ],
        constraints: vec![
            TableConstraint::PrimaryKey(vec!["a".to_string()]),
            TableConstraint::Unique(vec!["b".to_string()]),
            TableConstraint::ForeignKey {
                columns: vec!["b".to_string()],
                foreign_table: "u".to_string(),
                referred_columns: vec!["id".to_string()],
            },
        ],
    };
    match Command::from_statement(&statement).unwrap() {
        Command::CreateTable(o) => {
            let a = o.columns.get("a").unwrap();
            assert!(a.primary_key && a.unique);
            let b = o.columns.get("b").unwrap();
            assert!(!b.primary_key && b.unique);
            assert_eq!(b.foreign_key, Some(("u".to_string(), "id".to_string())));
        }
        other => panic!("unexpected {:?}", other),
    }
    let bad = Statement::CreateTable {
        name: "t".to_string(),
        columns: vec![],
        constraints: vec![TableConstraint::PrimaryKey(vec!["zz".to_string()])],
    };
    assert_eq!(
        Command::from_statement(&bad).unwrap_err(),
        DbError::UnknownColumn("zz".to_string())
    );
    let check = Statement::CreateTable {
        name: "t".to_string(),
        columns: vec![],
        constraints: vec![TableConstraint::Check],
    };
    assert_eq!(
        Command::from_statement(&check).unwrap_err(),
        DbError::UnsupportedClause(Clause::Check)
    );
}
