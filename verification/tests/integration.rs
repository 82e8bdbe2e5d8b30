use gimbal::database::integration::{ast_to_db, diagnose_db_diffs, diffs_to_script, DiffDiagnosis};
use gimbal::database::meta;
use gimbal::lang::ast_builder;
use gimbal::lang::internal;

#[test]
fn test_table_missing() {
    let code = r#"
app database

namespace db where

entity persists Agent

name:: Agent -> String"#;

    let ast = ast_builder::build(code, &Vec::new()).unwrap();
    let ast_db = ast_to_db(&ast);
    let mock_db_config = meta::DatabaseConfig::MockDb(meta::MockDbConfig { tables: Vec::new() });
    let db_diff = diagnose_db_diffs(&ast, &mock_db_config).unwrap();
    assert_eq!(ast_db.tables()[0].name(), "db_Agent");
    assert!(matches!(db_diff[0].diff_diagnosis()[0], DiffDiagnosis::TableMissing));
}

#[test]
fn test_nothing_missing() {
    let code = r#"
app database

namespace db where

entity persists Agent

name:: Agent -> String"#;

    let ast = ast_builder::build(code, &Vec::new()).unwrap();
    let ast_db = ast_to_db(&ast);
    let mock_column = meta::Column::new("name", internal::LeafType::String);
    let mock_table = meta::Table::new("schema", "db_Agent", vec![mock_column]);
    let mock_db_config =
        meta::DatabaseConfig::MockDb(meta::MockDbConfig { tables: vec![mock_table] });
    let db_diff = diagnose_db_diffs(&ast, &mock_db_config).unwrap();
    assert_eq!(ast_db.tables()[0].name(), "db_Agent");
    assert!(matches!(db_diff[0].diff_diagnosis()[0], DiffDiagnosis::NoDiff));
}

#[test]
fn test_column_missing() {
    let code = r#"
app database

namespace db where

entity persists Agent

name:: Agent -> String"#;

    let ast = ast_builder::build(code, &Vec::new()).unwrap();
    let ast_db = ast_to_db(&ast);
    let _entity_column_name = "name".to_string();
    let _mock_column_name = "another_column".to_string();
    let mock_column = meta::Column::new(&_mock_column_name, internal::LeafType::String);
    let mock_table = meta::Table::new("schema", "db_Agent", vec![mock_column]);
    let mock_db_config =
        meta::DatabaseConfig::MockDb(meta::MockDbConfig { tables: vec![mock_table] });
    let db_diff = diagnose_db_diffs(&ast, &mock_db_config).unwrap();
    assert_eq!(ast_db.tables()[0].name(), "db_Agent");
    assert!(matches!(
        &db_diff[0].diff_diagnosis()[0],
        DiffDiagnosis::ColumnMissing(_entity_column_name)
    ));
    assert_eq!(db_diff[0].diff_diagnosis()[0], DiffDiagnosis::ColumnMissing(_entity_column_name));
}

#[test]
fn test_column_type_mismatch() {
    let code = r#"
app database

namespace db where

entity persists Agent

name:: Agent -> String"#;

    let ast = ast_builder::build(code, &Vec::new()).unwrap();
    let ast_db = ast_to_db(&ast);
    let _entity_column_name = "name".to_string();
    let mock_column = meta::Column::new(&_entity_column_name, internal::LeafType::Int);
    let mock_table = meta::Table::new("schema", "db_Agent", vec![mock_column]);
    let mock_db_config =
        meta::DatabaseConfig::MockDb(meta::MockDbConfig { tables: vec![mock_table] });
    let db_diff = diagnose_db_diffs(&ast, &mock_db_config).unwrap();
    let _db_change = diffs_to_script(&db_diff, &mock_db_config);
    assert_eq!(ast_db.tables()[0].name(), "db_Agent");
    assert!(matches!(
        &db_diff[0].diff_diagnosis()[0],
        DiffDiagnosis::ColumnTypeMismatch(
            _entity_column_name,
            internal::LeafType::String,
            internal::LeafType::Int
        )
    ));
    assert_eq!(
        db_diff[0].diff_diagnosis()[0],
        DiffDiagnosis::ColumnTypeMismatch(
            _entity_column_name,
            internal::LeafType::String,
            internal::LeafType::Int
        )
    );
}
