use dechib::error::DbError;
use dechib::instance::Instance;
use dechib::translate::{ColumnDef, ColumnOption, ColumnOptionDef, InsertSource, Statement, TableConstraint};
use dechib::types::{DataType, Expr, Literal};

struct StudentDb {
    db: Instance,
}

fn column(name: &str, data_type: DataType, options: Vec<ColumnOption>) -> ColumnDef {
    ColumnDef {
        name: name.to_string(),
        data_type,
        options: options
            .into_iter()
            .map(|option| ColumnOptionDef { name: None, option })
            .collect(),
    }
}

fn names(list: &[&str]) -> Vec<String> {
    list.iter().map(|s| s.to_string()).collect()
}

fn foreign_key(col: &str, table: &str, referred: &str) -> TableConstraint {
    TableConstraint::ForeignKey {
        columns: names(&[col]),
        foreign_table: table.to_string(),
        referred_columns: names(&[referred]),
    }
}

fn text(s: &str) -> Expr {
    Expr::Literal(Literal::Text(s.to_string()))
}

fn number(n: usize) -> Expr {
    Expr::Literal(Literal::Number(n.to_string()))
}

fn insert(table: &str, columns: &[&str], row: Vec<Expr>) -> Statement {
    Statement::Insert {
        table_name: table.to_string(),
        columns: names(columns),
        source: Some(InsertSource::Values(vec![row])),
    }
}

impl StudentDb {
    fn new() -> Self {
        Self { db: Instance::new() }
    }

    fn run(&mut self, statement: Statement) -> Result<(), DbError> {
        self.db.execute(&vec![statement]).1
    }

    fn init_default(&mut self) -> Result<(), DbError> {
        self.create_student_table()?;
        self.create_professor_table()?;
        self.create_class_table()?;
        self.create_attends_table()
    }

    fn create_student_table(&mut self) -> Result<(), DbError> {
        self.run(Statement::CreateTable {
            name: "student".to_string(),
            columns: vec![
                column("id", DataType::Integer, vec![ColumnOption::AutoIncrement]),
                column("name", DataType::Varchar, vec![ColumnOption::NotNull]),
                column("age", DataType::Integer, vec![ColumnOption::NotNull]),
                column("year", DataType::Integer, vec![ColumnOption::NotNull]),
            ],
            constraints: vec![TableConstraint::PrimaryKey(names(&["id"]))],
        })
    }

    fn create_professor_table(&mut self) -> Result<(), DbError> {
        self.run(Statement::CreateTable {
            name: "professor".to_string(),
            columns: vec![
                column("id", DataType::Integer, vec![ColumnOption::AutoIncrement]),
                column("name", DataType::Varchar, vec![ColumnOption::NotNull]),
            ],
            constraints: vec![TableConstraint::PrimaryKey(names(&["id"]))],
        })
    }

    fn create_class_table(&mut self) -> Result<(), DbError> {
        self.run(Statement::CreateTable {
            name: "class".to_string(),
            columns: vec![
                column("id", DataType::Integer, vec![ColumnOption::AutoIncrement]),
                column("title", DataType::Varchar, vec![ColumnOption::NotNull]),
                column("prof_id", DataType::Integer, vec![ColumnOption::NotNull]),
            ],
            constraints: vec![
                TableConstraint::PrimaryKey(names(&["id"])),
                foreign_key("prof_id", "professor", "id"),
            ],
        })
    }

    fn attends_table(lecture_table: &str) -> Statement {
        Statement::CreateTable {
            name: "attends".to_string(),
            columns: vec![
                column("student", DataType::Integer, vec![ColumnOption::NotNull]),
                column("lecture", DataType::Integer, vec![ColumnOption::NotNull]),
                column("grade", DataType::Integer, vec![ColumnOption::NotNull]),
            ],
            constraints: vec![
                foreign_key("student", "student", "id"),
                foreign_key("lecture", lecture_table, "id"),
            ],
        }
    }

    fn create_attends_table(&mut self) -> Result<(), DbError> {
        self.run(Self::attends_table("class"))
    }

    fn add_student(&mut self, name: &str, age: usize, year: usize) -> Result<(), DbError> {
        self.run(insert(
            "student",
            &["name", "age", "year"],
            vec![text(name), number(age), number(year)],
        ))
    }

    fn add_professor(&mut self, name: &str) -> Result<(), DbError> {
        self.run(insert("professor", &["name"], vec![text(name)]))
    }

    fn add_class(&mut self, title: &str, prof_id: usize) -> Result<(), DbError> {
        self.run(insert(
            "class",
            &["title", "prof_id"],
            vec![text(title), number(prof_id)],
        ))
    }

    fn register_attendance(
        &mut self,
        student: usize,
        lecture: usize,
        grade: usize,
    ) -> Result<(), DbError> {
        self.run(insert(
            "attends",
            &["student", "lecture", "grade"],
            vec![number(student), number(lecture), number(grade)],
        ))
    }
}

#[test]
fn student_simple() {
    let mut db = StudentDb::new();
    db.init_default().unwrap();
    db.add_student("Daniel McKenna", 31, 1).unwrap();
    db.add_professor("Guido Moerkotte").unwrap();
    db.add_class("Building a query compiler", 1).unwrap();
    db.register_attendance(1, 1, 0).unwrap();
}

#[test]
fn invalid_foreign_keys() {
    let mut db = StudentDb::new();
    assert!(db.create_attends_table().is_err());
    assert!(db.create_class_table().is_err());

    db.create_professor_table().unwrap();
    db.create_class_table().unwrap();
    assert!(db.create_attends_table().is_err());
    db.create_student_table().unwrap();
    db.create_attends_table().unwrap();

    let res = db.run(StudentDb::attends_table("lecture"));
    assert!(res.is_err());
}

#[test]
fn reference_to_missing_column_is_refused() {
    let mut db = StudentDb::new();
    db.create_professor_table().unwrap();
    let res = db.run(Statement::CreateTable {
        name: "course".to_string(),
        columns: vec![column("prof", DataType::Integer, vec![])],
        constraints: vec![foreign_key("prof", "professor", "email")],
    });
    assert_eq!(res, Err(DbError::InvalidReference("prof".to_string())));
}
