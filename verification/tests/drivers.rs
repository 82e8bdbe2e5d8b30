use gimbal::database::drivers::mock;
use gimbal::database::drivers::postgres;
use gimbal::database::integration::{
    diagnose_db_diffs, diffs_to_script, tables, DbDiff, DiffDiagnosis,
};
use gimbal::database::meta::{
    join, Column, DatabaseChange, DatabaseConfig, DiffError, MockDbConfig, Table,
};
use gimbal::lang::ast::QualifiedName;
use gimbal::lang::ast_builder::build;
use gimbal::lang::internal::LeafType;

fn texts(all: &[&str]) -> Vec<String> {
    all.iter().map(|s| s.to_string()).collect()
}

fn diff_of(table: Table, diagnosis: Vec<DiffDiagnosis>) -> DbDiff {
    DbDiff::new(QualifiedName::new("db", "Any", None), table, diagnosis)
}

fn agent_table() -> Table {
    Table::new(
        "schema",
        "db_Agent",
        vec![Column::new("name", LeafType::String), Column::new("age", LeafType::Int)],
    )
}

#[test]
fn a_missing_table_compiles_to_its_creation() {
    let code = r#"
app database

namespace db where

entity persists Agent

name:: Agent -> String"#;
    let ast = build(code, &Vec::new()).unwrap();
    let diffs = diagnose_db_diffs(&ast, &DatabaseConfig::MockDb(MockDbConfig { tables: vec![] }))
        .unwrap();
    let change = postgres::diffs_to_changes(&diffs, &DatabaseConfig::Postgres(String::new()));
    assert_eq!(change.commands(), vec!["CREATE TABLE db_Agent (name varchar(255))".to_string()]);
    assert_eq!(change.to_script(), "CREATE TABLE db_Agent (name varchar(255))");
}

#[test]
fn sql_types_of_the_leaf_types() {
    assert_eq!(postgres::data_type_ddl(LeafType::String), "varchar(255)");
    assert_eq!(postgres::data_type_ddl(LeafType::Int), "integer");
    assert_eq!(postgres::data_type_ddl(LeafType::Float), "double precision");
    assert_eq!(postgres::data_type_ddl(LeafType::Bool), "boolean");
    assert_eq!(postgres::data_type_ddl(LeafType::Id), "uuid");
}

#[test]
fn definitions_of_columns_and_tables() {
    assert_eq!(postgres::column_ddl(&Column::new("score", LeafType::Float)), "score double precision");
    assert_eq!(postgres::columns_for_create_ddl(&Vec::new()), "()");
    assert_eq!(
        postgres::columns_for_create_ddl(&vec![Column::new("id", LeafType::Id)]),
        "(id uuid)"
    );
    assert_eq!(
        postgres::table_ddl(&agent_table()),
        "CREATE TABLE db_Agent (name varchar(255), age integer)"
    );
    assert_eq!(
        postgres::table_ddl(&Table::new("schema", "db_Lonely", Vec::new())),
        "CREATE TABLE db_Lonely ()"
    );
}

#[test]
fn only_a_missing_table_has_a_command() {
    let table = agent_table();
    assert_eq!(
        postgres::diagnosis_to_ddl(&table, &DiffDiagnosis::TableMissing),
        Some("CREATE TABLE db_Agent (name varchar(255), age integer)".to_string())
    );
    assert_eq!(postgres::diagnosis_to_ddl(&table, &DiffDiagnosis::NoDiff), None);
    assert_eq!(
        postgres::diagnosis_to_ddl(&table, &DiffDiagnosis::ColumnMissing("name".to_string())),
        None
    );
    let mismatch =
        DiffDiagnosis::ColumnTypeMismatch("age".to_string(), LeafType::Int, LeafType::Bool);
    assert_eq!(postgres::diagnosis_to_ddl(&table, &mismatch), None);
}

#[test]
fn commands_follow_the_diffs_in_order() {
    let diffs = vec![
        diff_of(Table::new("schema", "b", Vec::new()), vec![DiffDiagnosis::TableMissing]),
        diff_of(agent_table(), vec![DiffDiagnosis::NoDiff, DiffDiagnosis::NoDiff]),
        diff_of(
            Table::new("schema", "a", vec![Column::new("x", LeafType::Bool)]),
            vec![DiffDiagnosis::TableMissing],
        ),
        diff_of(
            Table::new("schema", "c", vec![Column::new("y", LeafType::Bool)]),
            vec![DiffDiagnosis::ColumnMissing("y".to_string())],
        ),
    ];
    let config = DatabaseConfig::Postgres("host=somewhere".to_string());
    let change = diffs_to_script(&diffs, &config);
    assert!(matches!(&change, DatabaseChange::SqlDb(_)));
    assert_eq!(change.commands(), texts(&["CREATE TABLE b ()", "CREATE TABLE a (x boolean)"]));
    assert_eq!(change.to_script(), "CREATE TABLE b ()\nCREATE TABLE a (x boolean)");
    assert_eq!(postgres::diff_to_command(diffs[0].db_table(), &diffs[1]), Vec::<String>::new());
    assert_eq!(
        postgres::diff_to_command(diffs[0].db_table(), &diffs[2]),
        texts(&["CREATE TABLE b ()"])
    );
    let none = postgres::diffs_to_changes(&Vec::new(), &config);
    assert!(none.commands().is_empty());
    assert_eq!(none.to_script(), "");
}

#[test]
fn diagnoses_without_a_command_are_pending() {
    let mismatch =
        DiffDiagnosis::ColumnTypeMismatch("age".to_string(), LeafType::Int, LeafType::Bool);
    let diff = diff_of(
        agent_table(),
        vec![
            DiffDiagnosis::NoDiff,
            DiffDiagnosis::ColumnMissing("name".to_string()),
            DiffDiagnosis::TableMissing,
            DiffDiagnosis::ColumnTypeMismatch("age".to_string(), LeafType::Int, LeafType::Bool),
        ],
    );
    let missing = DiffDiagnosis::ColumnMissing("name".to_string());
    assert_eq!(postgres::pending_diagnoses(&diff), vec![&missing, &mismatch]);
    let done = diff_of(agent_table(), vec![DiffDiagnosis::TableMissing]);
    assert!(postgres::pending_diagnoses(&done).is_empty());
}

#[test]
fn a_script_is_its_commands_line_by_line() {
    let change = DatabaseChange::SqlDb(texts(&["one", "two", "two", ""]));
    assert_eq!(change.commands(), texts(&["one", "two", "two", ""]));
    assert_eq!(change.to_script(), "one\ntwo\ntwo\n");
    assert_eq!(join(&texts(&["a"]), ", "), "a");
    assert_eq!(join(&texts(&["a", "b", "c"]), ", "), "a, b, c");
    assert_eq!(join(&texts(&["", ""]), "-"), "-");
    assert_eq!(join(&Vec::new(), ", "), "");
}

#[test]
fn a_simulated_change_has_no_commands() {
    let diffs = vec![diff_of(agent_table(), vec![DiffDiagnosis::TableMissing])];
    let config = DatabaseConfig::MockDb(MockDbConfig { tables: Vec::new() });
    let change = diffs_to_script(&diffs, &config);
    assert!(change.commands().is_empty());
    assert_eq!(change.to_script(), "");
    match change {
        DatabaseChange::MockDb(DatabaseConfig::MockDb(held)) => {
            assert_eq!(held.tables.len(), 1);
            assert_eq!(held.tables[0].name(), "db_Agent");
            assert_eq!(held.tables[0].schema(), "schema");
            assert_eq!(held.tables[0].columns().len(), 2);
            assert_eq!(held.tables[0].columns()[1].name(), "age");
            assert_eq!(held.tables[0].columns()[1].data_type(), LeafType::Int);
        }
        _ => panic!("a simulated change"),
    }
}

#[test]
fn the_simulated_database_copies_under_its_schema() {
    let table = Table::new("elsewhere", "t", vec![Column::new("c", LeafType::Id)]);
    let copy = mock::copy_table(&table);
    assert_eq!(copy.schema(), "schema");
    assert_eq!(copy.name(), "t");
    assert_eq!(copy.columns()[0].name(), "c");
    assert_eq!(copy.columns()[0].data_type(), LeafType::Id);
    let copies = mock::copy_tables(&vec![table, Table::new("", "u", Vec::new())]);
    assert_eq!(copies.len(), 2);
    assert_eq!(copies[1].name(), "u");
    assert_eq!(copies[1].schema(), "schema");
    let column = mock::copy_column(&Column::new("x", LeafType::Float));
    assert_eq!((column.name(), column.data_type()), ("x".to_string(), LeafType::Float));
    assert!(mock::copy_columns(&Vec::new()).is_empty());
    assert_eq!(mock::MOCK_SCHEMA, "schema");
}

#[test]
fn applying_to_the_simulated_database_succeeds() {
    let config = DatabaseConfig::MockDb(MockDbConfig { tables: Vec::new() });
    let change = DatabaseChange::SqlDb(texts(&["anything"]));
    assert_eq!(mock::execute_changes(&change, &config), Ok(()));
}

#[test]
fn the_registry_is_the_callers() {
    let mut registry = MockDbConfig {
        tables: vec![Table::new("s", "here", vec![Column::new("c", LeafType::Int)])],
    };
    let bare = mock::tables(&registry);
    assert_eq!(bare.len(), 1);
    assert_eq!((bare[0].schema(), bare[0].name()), ("s".to_string(), "here".to_string()));
    assert!(bare[0].columns().is_empty());

    let list = mock::tables_for_entities(&registry, texts(&["gone", "here", "gone"]));
    assert_eq!(list.len(), 3);
    assert_eq!(list[0].0, "gone");
    assert!(list[0].1.is_none());
    assert_eq!(list[1].0, "here");
    assert_eq!(list[1].1.as_ref().unwrap().columns().len(), 1);
    assert_eq!(list[1].1.as_ref().unwrap().schema(), "schema");

    mock::create_missing(&mut registry, &list);
    let names: Vec<String> = registry.tables.iter().map(|t| t.name()).collect();
    assert_eq!(names, texts(&["here", "gone", "gone"]));
    assert_eq!(registry.tables[1].schema(), "");
    assert!(registry.tables[1].columns().is_empty());

    let other = MockDbConfig { tables: Vec::new() };
    assert!(mock::tables(&other).is_empty());
    let held = tables(&DatabaseConfig::MockDb(registry)).unwrap();
    assert_eq!(held.len(), 3);
    assert_eq!(held[0].schema(), "s");
}

#[test]
fn names_are_asked_for_in_lower_case() {
    assert_eq!(postgres::catalog_name("db_Agent"), "db_agent");
    assert_eq!(postgres::catalog_name("ÄB"), "äb");
    assert_eq!(postgres::catalog_name("already"), "already");
    assert!(postgres::TABLE_QUERY.contains("information_schema.tables"));
    assert!(postgres::COLUMN_QUERY.contains("information_schema.columns"));
}

#[test]
fn types_of_the_catalog() {
    assert_eq!(postgres::data_type_to_leaf_type("varchar"), Some(LeafType::String));
    assert_eq!(postgres::data_type_to_leaf_type("integer"), Some(LeafType::Int));
    assert_eq!(postgres::data_type_to_leaf_type("int4"), Some(LeafType::Int));
    assert_eq!(postgres::data_type_to_leaf_type("double precision"), Some(LeafType::Float));
    assert_eq!(postgres::data_type_to_leaf_type("float8"), Some(LeafType::Float));
    assert_eq!(postgres::data_type_to_leaf_type("boolean"), Some(LeafType::Bool));
    assert_eq!(postgres::data_type_to_leaf_type("bool"), Some(LeafType::Bool));
    assert_eq!(postgres::data_type_to_leaf_type("uuid"), Some(LeafType::Id));
    assert_eq!(postgres::data_type_to_leaf_type("varchar(255)"), None);
    assert_eq!(postgres::data_type_to_leaf_type("VARCHAR"), None);
    assert_eq!(postgres::data_type_to_leaf_type(""), None);
}

#[test]
fn rows_of_the_catalog_are_columns() {
    let rows = vec![
        ("name".to_string(), "varchar".to_string()),
        ("age".to_string(), "int4".to_string()),
    ];
    let columns = postgres::db_columns_for_table(&rows).unwrap();
    assert_eq!(columns.len(), 2);
    assert_eq!((columns[0].name(), columns[0].data_type()), ("name".to_string(), LeafType::String));
    assert_eq!((columns[1].name(), columns[1].data_type()), ("age".to_string(), LeafType::Int));
    let rows = vec![
        ("a".to_string(), "uuid".to_string()),
        ("b".to_string(), "point".to_string()),
        ("c".to_string(), "json".to_string()),
    ];
    assert!(matches!(
        postgres::db_columns_for_table(&rows),
        Err(DiffError::UnknownDataType(n)) if n == "point"
    ));
    assert!(postgres::db_columns_for_table(&Vec::new()).unwrap().is_empty());
}

#[test]
fn answers_of_the_catalog_are_a_table() {
    let rows = vec![("name".to_string(), "varchar".to_string())];
    assert!(postgres::db_table_for_ast_table(&Vec::new(), &rows).unwrap().is_none());
    let table = postgres::db_table_for_ast_table(&texts(&["db_agent"]), &rows).unwrap().unwrap();
    assert_eq!(table.schema(), "");
    assert_eq!(table.name(), "db_agent");
    assert_eq!(table.columns().len(), 1);
    assert_eq!(table.columns()[0].name(), "name");
    assert_eq!(table.columns()[0].data_type(), LeafType::String);
    assert!(matches!(
        postgres::db_table_for_ast_table(&texts(&["one", "two"]), &rows),
        Err(DiffError::AmbiguousTable(n)) if n == "one"
    ));
    let bad = vec![("name".to_string(), "xml".to_string())];
    assert!(matches!(
        postgres::db_table_for_ast_table(&texts(&["t"]), &bad),
        Err(DiffError::UnknownDataType(n)) if n == "xml"
    ));
    assert!(postgres::db_table_for_ast_table(&Vec::new(), &bad).unwrap().is_none());
}

#[test]
fn every_failure_of_a_migration_is_reported() {
    assert_eq!(postgres::execute_changes(&Vec::new()), Ok(()));
    assert_eq!(postgres::execute_changes(&vec![Ok(()), Ok(())]), Ok(()));
    let outcomes = vec![
        Err("first failed".to_string()),
        Ok(()),
        Err("third failed".to_string()),
        Err("first failed".to_string()),
    ];
    assert_eq!(
        postgres::execute_changes(&outcomes),
        Err("first failed\nthird failed\nfirst failed".to_string())
    );
    assert_eq!(
        postgres::execute_changes(&vec![Ok(()), Err("only".to_string())]),
        Err("only".to_string())
    );
}
