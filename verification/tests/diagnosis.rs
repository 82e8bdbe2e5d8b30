use gimbal::database::drivers::mock;
use gimbal::database::integration::{
    diagnose_answers, diagnose_column, diagnose_columns, diagnose_db_diffs, diagnose_diff,
    diagnose_table, tables, DbDiff, DiffDiagnosis,
};
use gimbal::database::meta::{Column, DatabaseConfig, DiffError, MockDbConfig, Table};
use gimbal::lang::ast::{Application, QualifiedName};
use gimbal::lang::ast_builder::build;
use gimbal::lang::internal::LeafType;

fn agent() -> Application {
    let code = r#"
app database

namespace db where

entity persists Agent

name:: Agent -> String"#;
    build(code, &Vec::new()).unwrap()
}

fn two_entities() -> Application {
    let code = "app a namespace db where
        entity persists Agent
        entity persists Order
        name :: Agent -> String
        age :: Agent -> Int
        buyer :: Order -> Agent";
    build(code, &Vec::new()).unwrap()
}

fn mock_db(tables: Vec<Table>) -> DatabaseConfig {
    DatabaseConfig::MockDb(MockDbConfig { tables })
}

fn diagnoses(diff: &DbDiff) -> &Vec<DiffDiagnosis> {
    diff.diff_diagnosis()
}

#[test]
fn one_entity_and_no_tables_is_one_missing_table() {
    let diffs = diagnose_db_diffs(&agent(), &mock_db(Vec::new())).unwrap();
    assert_eq!(diffs.len(), 1);
    assert_eq!(diagnoses(&diffs[0]), &vec![DiffDiagnosis::TableMissing]);
    assert_eq!(diffs[0].db_table().name(), "db_Agent");
    assert_eq!(diffs[0].entity_name(), &QualifiedName::new("db", "Agent", None));
}

#[test]
fn an_entity_without_functions_and_no_tables_is_one_missing_table() {
    let app = build("app a namespace db where entity persists Lonely", &Vec::new()).unwrap();
    let diffs = diagnose_db_diffs(&app, &mock_db(Vec::new())).unwrap();
    assert_eq!(diffs.len(), 1);
    assert_eq!(diagnoses(&diffs[0]), &vec![DiffDiagnosis::TableMissing]);
}

#[test]
fn a_missing_table_has_one_diagnosis_whatever_its_columns() {
    let diffs = diagnose_db_diffs(&two_entities(), &mock_db(Vec::new())).unwrap();
    assert_eq!(diffs.len(), 2);
    assert_eq!(diagnoses(&diffs[0]), &vec![DiffDiagnosis::TableMissing]);
    assert_eq!(diagnoses(&diffs[1]), &vec![DiffDiagnosis::TableMissing]);
    assert_eq!(diffs[0].db_table().columns().len(), 2);
}

#[test]
fn the_same_columns_are_no_difference() {
    let held = vec![
        Table::new(
            "schema",
            "db_Agent",
            vec![Column::new("name", LeafType::String), Column::new("age", LeafType::Int)],
        ),
        Table::new("schema", "db_Order", vec![Column::new("buyer", LeafType::Id)]),
    ];
    let diffs = diagnose_db_diffs(&two_entities(), &mock_db(held)).unwrap();
    assert_eq!(diagnoses(&diffs[0]), &vec![DiffDiagnosis::NoDiff, DiffDiagnosis::NoDiff]);
    assert_eq!(diagnoses(&diffs[1]), &vec![DiffDiagnosis::NoDiff]);
}

#[test]
fn column_of_type_varchar_is_no_difference() {
    let held = vec![Table::new("schema", "db_Agent", vec![Column::new("name", LeafType::String)])];
    let diffs = diagnose_db_diffs(&agent(), &mock_db(held)).unwrap();
    assert_eq!(diagnoses(&diffs[0]), &vec![DiffDiagnosis::NoDiff]);
}

#[test]
fn a_column_of_another_name_is_a_missing_column() {
    let held =
        vec![Table::new("schema", "db_Agent", vec![Column::new("other_name", LeafType::String)])];
    let diffs = diagnose_db_diffs(&agent(), &mock_db(held)).unwrap();
    assert_eq!(diagnoses(&diffs[0]), &vec![DiffDiagnosis::ColumnMissing("name".to_string())]);
}

#[test]
fn a_column_of_type_integer_is_a_type_mismatch() {
    let held = vec![Table::new("schema", "db_Agent", vec![Column::new("name", LeafType::Int)])];
    let diffs = diagnose_db_diffs(&agent(), &mock_db(held)).unwrap();
    assert_eq!(
        diagnoses(&diffs[0]),
        &vec![DiffDiagnosis::ColumnTypeMismatch(
            "name".to_string(),
            LeafType::String,
            LeafType::Int
        )]
    );
}

#[test]
fn a_missing_column_leaves_the_others_as_they_are() {
    let with = vec![Column::new("age", LeafType::Int), Column::new("name", LeafType::Bool)];
    let without = vec![Column::new("age", LeafType::Int)];
    let entity = vec![
        Column::new("name", LeafType::String),
        Column::new("age", LeafType::Int),
        Column::new("gone", LeafType::Int),
    ];
    let a = diagnose_columns(&entity, &with);
    let b = diagnose_columns(&entity, &without);
    assert_eq!(
        a,
        vec![
            DiffDiagnosis::ColumnTypeMismatch("name".to_string(), LeafType::String, LeafType::Bool),
            DiffDiagnosis::NoDiff,
            DiffDiagnosis::ColumnMissing("gone".to_string()),
        ]
    );
    assert_eq!(b[0], DiffDiagnosis::ColumnMissing("name".to_string()));
    assert_eq!(b[1], a[1]);
    assert_eq!(b[2], a[2]);
}

#[test]
fn the_first_column_of_a_name_decides() {
    let held = vec![Column::new("name", LeafType::String), Column::new("name", LeafType::Int)];
    let wanted = Column::new("name", LeafType::String);
    assert_eq!(diagnose_column(&wanted, &held), DiffDiagnosis::NoDiff);
    let wanted = Column::new("name", LeafType::Int);
    assert_eq!(
        diagnose_column(&wanted, &held),
        DiffDiagnosis::ColumnTypeMismatch("name".to_string(), LeafType::Int, LeafType::String)
    );
}

#[test]
fn names_are_compared_as_they_are_written() {
    let held = vec![Column::new("Name", LeafType::String)];
    let wanted = Column::new("name", LeafType::String);
    assert_eq!(diagnose_column(&wanted, &held), DiffDiagnosis::ColumnMissing("name".to_string()));
    assert_eq!(
        diagnose_column(&wanted, &Vec::new()),
        DiffDiagnosis::ColumnMissing("name".to_string())
    );
}

#[test]
fn a_column_of_the_database_that_the_entity_lacks_is_not_diagnosed() {
    let entity = Table::new("schema", "t", vec![Column::new("a", LeafType::Int)]);
    let held = Table::new(
        "schema",
        "t",
        vec![Column::new("extra", LeafType::Bool), Column::new("a", LeafType::Int)],
    );
    assert_eq!(diagnose_table(&entity, Some(held)), vec![DiffDiagnosis::NoDiff]);
    assert_eq!(diagnose_table(&entity, None), vec![DiffDiagnosis::TableMissing]);
    let empty = Table::new("schema", "t", Vec::new());
    assert!(diagnose_table(&empty, Some(Table::new("", "t", Vec::new()))).is_empty());
}

#[test]
fn diffing_twice_gives_the_same_diffs() {
    let app = two_entities();
    let held = || {
        mock_db(vec![Table::new("schema", "db_Agent", vec![Column::new("age", LeafType::Bool)])])
    };
    let first = diagnose_db_diffs(&app, &held()).unwrap();
    let second = diagnose_db_diffs(&app, &held()).unwrap();
    assert_eq!(first.len(), second.len());
    for (a, b) in first.iter().zip(second.iter()) {
        assert_eq!(a.entity_name(), b.entity_name());
        assert_eq!(a.db_table().name(), b.db_table().name());
        assert_eq!(a.diff_diagnosis(), b.diff_diagnosis());
    }
    assert_eq!(
        diagnoses(&first[0]),
        &vec![
            DiffDiagnosis::ColumnMissing("name".to_string()),
            DiffDiagnosis::ColumnTypeMismatch("age".to_string(), LeafType::Int, LeafType::Bool),
        ]
    );
    assert_eq!(diagnoses(&first[1]), &vec![DiffDiagnosis::TableMissing]);
}

#[test]
fn the_first_table_of_a_name_is_looked_up() {
    let held = mock_db(vec![
        Table::new("one", "db_Other", vec![Column::new("x", LeafType::Int)]),
        Table::new("two", "db_Agent", vec![Column::new("first", LeafType::Int)]),
        Table::new("three", "db_Agent", vec![Column::new("second", LeafType::Int)]),
    ]);
    let wanted = Table::new("schema", "db_Agent", Vec::new());
    let found = mock::db_table_for_ast_table(&held, &wanted).unwrap().unwrap();
    assert_eq!(found.name(), "db_Agent");
    assert_eq!(found.schema(), "schema");
    assert_eq!(found.columns().len(), 1);
    assert_eq!(found.columns()[0].name(), "first");
    let absent = Table::new("schema", "db_agent", Vec::new());
    assert!(mock::db_table_for_ast_table(&held, &absent).unwrap().is_none());
}

#[test]
fn the_simulated_database_is_not_asked_for_another() {
    let config = DatabaseConfig::Postgres("host=nowhere".to_string());
    let wanted = Table::new("schema", "db_Agent", Vec::new());
    assert!(matches!(
        mock::db_table_for_ast_table(&config, &wanted),
        Err(DiffError::WrongDriver)
    ));
    assert!(matches!(diagnose_db_diffs(&agent(), &config), Err(DiffError::WrongDriver)));
    assert!(matches!(tables(&config), Err(DiffError::WrongDriver)));
    let name = QualifiedName::new("db", "Agent", None);
    assert!(matches!(diagnose_diff(&agent(), &config, &name), Err(DiffError::WrongDriver)));
}

#[test]
fn one_entity_is_diffed_by_its_name() {
    let app = two_entities();
    let held = mock_db(vec![Table::new("schema", "db_Order", Vec::new())]);
    let order = QualifiedName::new("db", "Order", None);
    let diff = diagnose_diff(&app, &held, &order).unwrap();
    assert_eq!(diff.entity_name(), &order);
    assert_eq!(diff.db_table().name(), "db_Order");
    assert_eq!(diff.diff_diagnosis(), &vec![DiffDiagnosis::ColumnMissing("buyer".to_string())]);
    let nobody = QualifiedName::new("db", "Nobody", None);
    assert!(matches!(
        diagnose_diff(&app, &held, &nobody),
        Err(DiffError::NoSuchEntity(n)) if n == "Nobody"
    ));
    let other = DatabaseConfig::Postgres(String::new());
    assert!(matches!(
        diagnose_diff(&app, &other, &nobody),
        Err(DiffError::NoSuchEntity(n)) if n == "Nobody"
    ));
}

#[test]
fn answers_are_taken_entity_by_entity() {
    let app = two_entities();
    let answers = vec![
        None,
        Some(Table::new("", "db_order", vec![Column::new("buyer", LeafType::String)])),
    ];
    let diffs = diagnose_answers(&app, &answers).unwrap();
    assert_eq!(diffs.len(), 2);
    assert_eq!(diffs[0].db_table().name(), "db_Agent");
    assert_eq!(diagnoses(&diffs[0]), &vec![DiffDiagnosis::TableMissing]);
    assert_eq!(diffs[1].entity_name(), &QualifiedName::new("db", "Order", None));
    assert_eq!(
        diagnoses(&diffs[1]),
        &vec![DiffDiagnosis::ColumnTypeMismatch(
            "buyer".to_string(),
            LeafType::Id,
            LeafType::String
        )]
    );
    assert!(diagnose_answers(&app, &vec![None]).is_none());
    assert!(diagnose_answers(&app, &vec![None, None, None]).is_none());
}

#[test]
fn a_diff_keeps_what_it_is_given() {
    let name = QualifiedName::new("db", "Agent", None);
    let table = Table::new("schema", "db_Agent", Vec::new());
    let diff = DbDiff::new(name.clone(), table, vec![DiffDiagnosis::NoDiff]);
    assert_eq!(diff.entity_name(), &name);
    assert_eq!(diff.db_table().name(), "db_Agent");
    assert_eq!(diff.diff_diagnosis(), &vec![DiffDiagnosis::NoDiff]);
}
